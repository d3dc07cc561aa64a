use runebender_web::measure::{label, popcount, CurveOptions, MeasureOptions};

#[test]
fn labels_and_popcount() {
    assert_eq!(label(256), "256 = 2^8");
    assert_eq!(label(96), "96 = 64+32");
    assert_eq!(label(272), "272 = 256+16");
    assert_eq!(popcount(256), 1);
    assert_eq!(popcount(96), 2);
    assert_eq!(popcount(116), 4); // 64+32+16+4
}

#[test]
fn label_of_non_positive_values_is_the_bare_number() {
    assert_eq!(label(0), "0");
    assert_eq!(label(-12), "-12");
    assert_eq!(label(i64::MIN), "-9223372036854775808");
}

#[test]
fn label_of_one_and_largest_values() {
    assert_eq!(label(1), "1 = 2^0");
    assert_eq!(label(3), "3 = 2+1");
    assert_eq!(label(1 << 62), "4611686018427387904 = 2^62");
    assert_eq!(
        label(i64::MAX).matches('+').count(),
        62,
        "i64::MAX is the sum of 63 powers of two"
    );
}

#[test]
fn popcount_counts_set_bits_and_ignores_negatives() {
    assert_eq!(popcount(0), 0);
    assert_eq!(popcount(-5), 0);
    assert_eq!(popcount(i64::MAX), 63);
    assert_eq!(popcount(7), 3);
}

#[test]
fn popcount_matches_number_of_label_terms() {
    for v in [5i64, 96, 116, 255, 1000, 4097] {
        let text = label(v);
        let terms = text.split(" = ").nth(1).unwrap().split('+').count() as u32;
        assert_eq!(terms, popcount(v));
    }
}

#[test]
fn measure_options_label_follows_popcount_flag() {
    let mut options = MeasureOptions::default();
    assert!(!options.any());
    assert_eq!(options.label(96), "96 = 64+32");
    options.popcount = false;
    assert_eq!(options.label(96), "96");
    options.spans = true;
    assert!(options.any());
    let curves = CurveOptions::default();
    assert!(!curves.comb && !curves.continuity);
}

#[test]
fn popcount_adds_over_disjoint_bits() {
    let a: i64 = 0b1010_0000;
    let b: i64 = 0b0000_0101;
    assert_eq!(a & b, 0);
    assert_eq!(popcount(a | b), popcount(a) + popcount(b));
    assert_eq!(popcount(i64::MAX), 63);
    assert_eq!(popcount(1), 1);
}
