use snippets::series::{harmonic, harmonic_functional};

#[test]
fn harmonic_matches_reference() {
    // 1/1 + 1/2 + ... + 1/9 as an exact fraction over 9!.
    let (num, den) = harmonic(10);
    assert_eq!((num, den), (1026576, 362880));

    let mut reference: f64 = 0.0;
    for i in 1..10 {
        reference += 1.0 / (i as f64);
    }
    let value = num as f64 / den as f64;
    assert!((value - reference).abs() / reference < 1e-9);
    assert!((value - 2.828968253968254).abs() < 1e-9);
}

#[test]
fn harmonic_styles_agree() {
    for n in -3..=20 {
        assert_eq!(harmonic(n), harmonic_functional(n));
    }
    let (num, den) = harmonic(17);
    let (fnum, fden) = harmonic_functional(17);
    let tolerance = 1e-9;
    let a = num as f64 / den as f64;
    let b = fnum as f64 / fden as f64;
    assert!((a - b).abs() < tolerance);
}

#[test]
fn harmonic_small_bounds_sum_nothing() {
    assert_eq!(harmonic(1), (0, 1));
    assert_eq!(harmonic(0), (0, 1));
    assert_eq!(harmonic(-7), (0, 1));
    assert_eq!(harmonic_functional(1), (0, 1));
    assert_eq!(harmonic_functional(-7), (0, 1));
}

#[test]
fn harmonic_first_terms() {
    // H_1 = 1/1, H_2 = 3/2 (as 3/2 over 2!), H_3 = 11/6 over 3!.
    assert_eq!(harmonic(2), (1, 1));
    assert_eq!(harmonic(3), (3, 2));
    assert_eq!(harmonic(4), (11, 6));
}
