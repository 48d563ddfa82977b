use orangey::OrangeyCtx;

#[test]
fn first_value_of_default_stream() {
    let mut g = OrangeyCtx::new();
    assert_eq!(g.rand(), 18017628057179154148);
}

#[test]
fn first_five_values_of_default_stream() {
    let mut g = OrangeyCtx::new();
    let got: Vec<u64> = (0..5).map(|_| g.rand()).collect();
    assert_eq!(
        got,
        vec![
            18017628057179154148,
            16104348561580308422,
            16084428887790382274,
            3065885127836915310,
            5761404210168905691,
        ]
    );
}

#[test]
fn skip_32_then_rand() {
    let mut g = OrangeyCtx::new();
    g.skip(32);
    assert_eq!(g.rand(), 2947149625353530425);
}

#[test]
fn peek_32_then_rand() {
    let mut g = OrangeyCtx::new();
    assert_eq!(g.peek(32), 2947149625353530425);
    assert_eq!(g.rand(), 18017628057179154148);
}

#[test]
fn reseed_zero_zero_then_rand() {
    let mut g = OrangeyCtx::new();
    g.srand(0, 0);
    assert_eq!(g.rand(), 15347903478529588745);
}

#[test]
fn reseed_42_54() {
    let mut g = OrangeyCtx::new();
    g.srand(42, 54);
    assert_eq!(g.rand(), 9705778491962043240);
    assert_eq!(g.rand(), 1370407407632858425);
    assert_eq!(g.rand(), 11774395822783136600);
}

#[test]
fn reseed_wraps_on_largest_seeds() {
    let mut g = OrangeyCtx::new();
    g.srand(u128::MAX, u128::MAX);
    assert_eq!(g.rand(), 1209184488173028132);
    assert_eq!(g.rand(), 4015107483223944568);
    assert_eq!(g.rand(), 12402149444776325903);
}

#[test]
fn reseed_forgets_the_old_stream() {
    let mut a = OrangeyCtx::new();
    let mut b = OrangeyCtx::new();
    b.skip(977);
    a.srand(7, 3);
    b.srand(7, 3);
    for _ in 0..16 {
        assert_eq!(a.rand(), b.rand());
    }
}

#[test]
fn skip_1000_then_rand() {
    let mut g = OrangeyCtx::new();
    g.skip(1000);
    assert_eq!(g.rand(), 10505380458311914208);
}

#[test]
fn reseed_skip_12345_then_rand() {
    let mut g = OrangeyCtx::new();
    g.srand(7, 3);
    g.skip(12345);
    assert_eq!(g.rand(), 1312848465999784528);
}

#[test]
fn default_is_new() {
    let mut a = OrangeyCtx::default();
    let mut b = OrangeyCtx::new();
    for _ in 0..8 {
        assert_eq!(a.rand(), b.rand());
    }
}
