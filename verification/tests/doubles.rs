use orangey::doubles::{Scaled, MASK, S_EXP, ZERO_CAP};
use orangey::OrangeyCtx;

fn unit(bits: u64) -> f64 {
    f64::from_bits(bits) - 1.0
}

fn scaled(parts: Option<Scaled>) -> f64 {
    match parts {
        None => 0.0,
        Some(p) => (p.significand as f64) * (p.exponent as f64).exp2(),
    }
}

#[test]
fn constants_are_those_of_binary64() {
    assert_eq!(MASK, (1u64 << 52) - 1);
    assert_eq!(S_EXP, 1.0f64.to_bits());
    assert_eq!(ZERO_CAP, 16);
}

#[test]
fn uniform_bits_of_default_stream() {
    let mut g = OrangeyCtx::new();
    assert_eq!(g.uniform_double_bits(), 4610411966497187556);
    assert_eq!(g.uniform_double_bits(), 4611162312530802630);
    assert_eq!(g.uniform_double_bits(), 4609257037250358466);
    assert_eq!(g.rand(), 3065885127836915310);
}

#[test]
fn uniform_bits_are_the_masked_draw() {
    let mut g = OrangeyCtx::new();
    let mut h = OrangeyCtx::new();
    for _ in 0..100 {
        let raw = h.rand();
        assert_eq!(g.uniform_double_bits(), (raw & MASK) | S_EXP);
    }
}

#[test]
fn uniform_values_of_default_stream() {
    let mut g = OrangeyCtx::new();
    assert_eq!(unit(g.uniform_double_bits()), 0.7171036425046902);
    assert_eq!(unit(g.uniform_double_bits()), 0.8837139310958135);
    assert_eq!(unit(g.uniform_double_bits()), 0.4606578341761609);
}

#[test]
fn uniform_values_lie_in_the_unit_interval() {
    let mut g = OrangeyCtx::new();
    let step = (-52f64).exp2();
    for _ in 0..10_000 {
        let bits = g.uniform_double_bits();
        assert!(S_EXP <= bits && bits <= S_EXP + MASK);
        let x = unit(bits);
        assert!(0.0 <= x && x < 1.0);
        // never a nonzero value below the grid step
        assert!(x == 0.0 || x >= step);
    }
}

#[test]
fn uniform_bits_of_a_draw_without_fraction() {
    // this seed puts the generator just before a state whose output has
    // its low 52 bits clear
    let mut g = OrangeyCtx::new();
    g.srand(
        0x8df84bdb993f03e3881e2463ca43a1d7,
        0x5851f42d4c957f2d14057b7ef767814f,
    );
    assert_eq!(g.peek(0), 18442240474082181120);
    let bits = g.uniform_double_bits();
    assert_eq!(bits, S_EXP);
    assert_eq!(unit(bits), 0.0);
}

#[test]
fn peek_uniform_bits_zero_is_the_next_value() {
    let mut g = OrangeyCtx::new();
    for _ in 0..40 {
        let seen = g.peek_uniform_double_bits(0);
        assert_eq!(g.uniform_double_bits(), seen);
    }
}

#[test]
fn peek_uniform_bits_values() {
    let g = OrangeyCtx::new();
    assert_eq!(g.peek_uniform_double_bits(0), 4610411966497187556);
    assert_eq!(g.peek_uniform_double_bits(1), 4611162312530802630);
    assert_eq!(g.peek_uniform_double_bits(2), 4609257037250358466);
}

#[test]
fn all_doubles_parts_of_default_stream() {
    let mut g = OrangeyCtx::new();
    assert_eq!(
        g.all_doubles_parts(),
        Some(Scaled { significand: 18017628057179154149, exponent: -64 })
    );
    assert_eq!(
        g.all_doubles_parts(),
        Some(Scaled { significand: 16104348561580308423, exponent: -64 })
    );
    assert_eq!(
        g.all_doubles_parts(),
        Some(Scaled { significand: 16084428887790382275, exponent: -64 })
    );
    // the fourth raw value has two leading zeros: it is moved left by two
    // places and filled from the sixth
    assert_eq!(
        g.all_doubles_parts(),
        Some(Scaled { significand: 12263540511347661241, exponent: -66 })
    );
    assert_eq!(g.rand(), 5761404210168905691);
}

#[test]
fn all_doubles_fill_comes_from_two_places_ahead() {
    let mut g = OrangeyCtx::new();
    g.skip(3);
    let first = g.peek(0);
    let fill = g.peek(2);
    assert_eq!(first.leading_zeros(), 2);
    let parts = g.all_doubles_parts().unwrap();
    assert_eq!(parts.significand, (first << 2) | (fill >> 62) | 1);
    assert_eq!(parts.exponent, -64 - 2);
}

#[test]
fn all_doubles_after_one_zero_draw() {
    let mut g = OrangeyCtx::new();
    g.srand(0x1710df42dcce3ff7f3bada231df26b90, 0);
    assert_eq!(g.peek(0), 0);
    assert_eq!(
        g.all_doubles_parts(),
        Some(Scaled { significand: 14087132059109001259, exponent: -128 })
    );
    assert_eq!(g.rand(), 2476629090128893128);
}

#[test]
fn all_doubles_after_two_zero_draws() {
    let mut g = OrangeyCtx::new();
    g.srand(
        0xa99ba2a8610dd067f570065b44dfb2ee,
        0x67944c2ad6647a968ac8baa57ccb1946,
    );
    assert_eq!(g.peek(0), 0);
    assert_eq!(g.peek(1), 0);
    assert_eq!(
        g.all_doubles_parts(),
        Some(Scaled { significand: 17197827519719090367, exponent: -192 })
    );
    assert_eq!(g.rand(), 12474750538461614150);
}

#[test]
fn all_doubles_parts_are_normalized() {
    let mut g = OrangeyCtx::new();
    for _ in 0..10_000 {
        let parts = g.all_doubles_parts().unwrap();
        assert!(parts.significand >= 1u64 << 63);
        assert_eq!(parts.significand & 1, 1);
        assert!(-1087 <= parts.exponent && parts.exponent <= -64);
        let x = scaled(Some(parts));
        assert!(0.0 < x && x < 1.0);
    }
}

#[test]
fn all_doubles_values_of_default_stream() {
    let mut g = OrangeyCtx::new();
    // the first raw value fills the first 64 places behind the point
    assert_eq!(scaled(g.all_doubles_parts()), 0.9767375741314709);
    assert_eq!(scaled(g.all_doubles_parts()), 0.8730184848464589);
    assert_eq!(scaled(g.all_doubles_parts()), 0.871938637166547);
    assert_eq!(scaled(g.all_doubles_parts()), 0.1662019658095891);
}

#[test]
fn all_doubles_value_is_the_significand_scaled_by_64_places() {
    let mut g = OrangeyCtx::new();
    let x = scaled(g.all_doubles_parts());
    assert_eq!(x, (18017628057179154149u64 as f64) * (-64f64).exp2());
}

#[test]
fn all_doubles_reach_far_below_the_uniform_grid() {
    let mut g = OrangeyCtx::new();
    g.srand(0x1710df42dcce3ff7f3bada231df26b90, 0);
    let x = scaled(g.all_doubles_parts());
    assert_eq!(x, 4.1398360386925424e-20);
    assert!(x > 0.0 && x < (-52f64).exp2());
    g.srand(
        0xa99ba2a8610dd067f570065b44dfb2ee,
        0x67944c2ad6647a968ac8baa57ccb1946,
    );
    let y = scaled(g.all_doubles_parts());
    assert_eq!(y, 2.7397719910715567e-39);
    assert!(y > 0.0 && y < (-128f64).exp2());
    assert_eq!(scaled(None), 0.0);
}

#[test]
fn all_doubles_cover_the_upper_half_of_the_unit_interval() {
    let mut g = OrangeyCtx::new();
    let mut upper = 0;
    for _ in 0..10_000 {
        let x = scaled(g.all_doubles_parts());
        assert!(0.0 < x && x < 1.0);
        if x >= 0.5 {
            upper += 1;
        }
    }
    assert!(upper > 4500 && upper < 5500);
}

#[test]
fn peek_all_doubles_zero_is_the_next_value() {
    let mut g = OrangeyCtx::new();
    for _ in 0..40 {
        let seen = g.peek_all_doubles_parts(0);
        assert_eq!(g.all_doubles_parts(), seen);
    }
}

#[test]
fn peek_all_doubles_values() {
    let g = OrangeyCtx::new();
    assert_eq!(
        g.peek_all_doubles_parts(3),
        Some(Scaled { significand: 12263540511347661241, exponent: -66 })
    );
}

#[test]
fn gaussian_draws_of_default_stream() {
    let mut g = OrangeyCtx::new();
    assert_eq!(g.gaussian_draws(), (4610411966497187556, 4609257037250358466));
    assert_eq!(g.gaussian_draws(), (4611162312530802630, 4610619800024995438));
    assert_eq!(g.gaussian_draws(), (4609257037250358466, 4608482705562058715));
    assert_eq!(g.rand(), 3065885127836915310);
}

#[test]
fn gaussian_draws_pass_over_a_zero_fraction() {
    let mut g = OrangeyCtx::new();
    g.srand(
        0x8df84bdb993f03e3881e2463ca43a1d7,
        0x5851f42d4c957f2d14057b7ef767814f,
    );
    assert_eq!(g.peek_uniform_double_bits(0), S_EXP);
    assert_eq!(g.gaussian_draws(), (4609854122310601685, 4610889300721599344));
    assert_eq!(g.rand(), 16791887446808293674);
}

#[test]
fn gaussian_scale_is_the_uniform_value_two_places_on() {
    let mut g = OrangeyCtx::new();
    for _ in 0..100 {
        let scale = g.peek_uniform_double_bits(2);
        let first = g.peek_uniform_double_bits(0);
        if first != S_EXP {
            assert_eq!(g.gaussian_draws(), (first, scale));
        } else {
            g.rand();
        }
    }
}

#[test]
fn gaussian_values_have_the_right_shape() {
    let mut g = OrangeyCtx::new();
    let n = 200_000;
    let mut sum = 0.0;
    for _ in 0..n {
        let (rsq, scale) = g.gaussian_draws();
        assert!(rsq > S_EXP);
        let rsq = unit(rsq);
        let x = unit(scale) * (-2.0 * rsq.ln() / rsq).sqrt();
        assert!(x.is_finite() && x >= 0.0);
        sum += x;
    }
    assert!(sum / n as f64 > 0.0);
}

#[test]
fn peek_gaussian_zero_is_the_next_value() {
    let mut g = OrangeyCtx::new();
    for _ in 0..40 {
        let seen = g.peek_gaussian_draws(0);
        assert_eq!(g.gaussian_draws(), seen);
    }
}

#[test]
fn peek_gaussian_values() {
    let g = OrangeyCtx::new();
    assert_eq!(g.peek_gaussian_draws(1), (4611162312530802630, 4610619800024995438));
}

#[test]
fn poisson_draws_of_default_stream() {
    let mut g = OrangeyCtx::new();
    assert_eq!(g.poisson_draws(), (4610411966497187556, 4609257037250358466));
    assert_eq!(g.poisson_draws(), (4611162312530802630, 4610619800024995438));
    assert_eq!(g.poisson_draws(), (4609257037250358466, 4608482705562058715));
    assert_eq!(g.rand(), 3065885127836915310);
}

#[test]
fn poisson_draws_keep_a_zero_fraction() {
    let mut g = OrangeyCtx::new();
    g.srand(
        0x8df84bdb993f03e3881e2463ca43a1d7,
        0x5851f42d4c957f2d14057b7ef767814f,
    );
    assert_eq!(g.poisson_draws(), (S_EXP, 4609650454771101994));
    assert_eq!(g.rand(), 4857552101815978965);
}

#[test]
fn poisson_counts_from_the_draws() {
    let mut g = OrangeyCtx::new();
    let em = (-1.33333333f64).exp();
    let mut counts = Vec::new();
    for _ in 0..3 {
        let (first, factor) = g.poisson_draws();
        let mut x = unit(first);
        let mut n = 0u64;
        while x > em {
            n += 1;
            x *= unit(factor);
        }
        counts.push(n);
    }
    assert_eq!(counts, vec![2, 5, 1]);
}

#[test]
fn peek_poisson_zero_is_the_next_value() {
    let mut g = OrangeyCtx::new();
    for _ in 0..40 {
        let seen = g.peek_poisson_draws(0);
        assert_eq!(g.poisson_draws(), seen);
    }
}

#[test]
fn peek_poisson_values() {
    let g = OrangeyCtx::new();
    assert_eq!(g.peek_poisson_draws(2), (4609257037250358466, 4608482705562058715));
}
