use mersey_host::number::{from_i64, is_nonzero, to_i64, to_u32};

fn doubles() -> Vec<f64> {
    let mut list: Vec<f64> = vec![
        0.0,
        -0.0,
        0.5,
        -0.5,
        0.999_999_999_999_999_9,
        1.0,
        -1.0,
        1.5,
        -1.5,
        2.0,
        41.999,
        -41.999,
        4_294_967_295.0,
        4_294_967_295.5,
        4_294_967_296.0,
        2_147_483_648.0,
        9_007_199_254_740_991.0,
        9_007_199_254_740_992.0,
        9_007_199_254_740_994.0,
        4_503_599_627_370_495.5,
        9_223_372_036_854_774_784.0,
        9_223_372_036_854_775_808.0,
        -9_223_372_036_854_775_808.0,
        -9_223_372_036_854_777_856.0,
        1e300,
        -1e300,
        5e-324,
        f64::MIN_POSITIVE,
        f64::MAX,
        f64::INFINITY,
        f64::NEG_INFINITY,
        f64::NAN,
    ];
    let mut x: u64 = 0x9e37_79b9_7f4a_7c15;
    let mut i = 0;
    while i < 20_000 {
        x ^= x << 13;
        x ^= x >> 7;
        x ^= x << 17;
        list.push(f64::from_bits(x));
        list.push((x >> (x % 64)) as f64 / 8.0);
        i += 1;
    }
    list
}

#[test]
fn a_double_reads_as_a_handle() {
    for d in doubles() {
        assert_eq!(to_i64(d.to_bits()), d as i64);
        assert_eq!(to_i64((-d).to_bits()), (-d) as i64);
    }
}

#[test]
fn a_double_reads_as_an_id() {
    for d in doubles() {
        assert_eq!(to_u32(d.to_bits()), d as u32);
        assert_eq!(to_u32((-d).to_bits()), (-d) as u32);
    }
}

#[test]
fn a_double_reads_as_a_truth_value() {
    for d in doubles() {
        assert_eq!(is_nonzero(d.to_bits()), d != 0.0);
    }
    assert!(!is_nonzero((-0.0f64).to_bits()));
    assert!(is_nonzero(f64::NAN.to_bits()));
}

#[test]
fn an_integer_becomes_the_nearest_double() {
    let mut list: Vec<i64> = vec![
        0,
        1,
        -1,
        2,
        3,
        10,
        i64::MAX,
        i64::MIN,
        i64::MIN + 1,
        9_007_199_254_740_991,
        9_007_199_254_740_992,
        9_007_199_254_740_993,
        9_007_199_254_740_995,
        -9_007_199_254_740_993,
        18_014_398_509_481_985,
        18_014_398_509_481_986,
        18_014_398_509_481_987,
        9_223_372_036_854_775_295,
        9_223_372_036_854_775_296,
    ];
    let mut x: u64 = 0x2545_f491_4f6c_dd1d;
    let mut i = 0;
    while i < 20_000 {
        x ^= x << 13;
        x ^= x >> 7;
        x ^= x << 17;
        list.push(x as i64);
        list.push((x >> (x % 64)) as i64);
        i += 1;
    }
    for v in list {
        assert_eq!(from_i64(v), (v as f64).to_bits());
    }
    assert_eq!(from_i64(1), 0x3ff0_0000_0000_0000);
}

#[test]
fn integers_round_trip() {
    let edge: i64 = 9_007_199_254_740_992;
    for v in [0, 1, -1, 7, -7, 4_294_967_296, edge - 1, edge, -edge, 1 - edge] {
        assert_eq!(to_i64(from_i64(v)), v);
    }
    assert_eq!(to_i64(from_i64(edge + 1)), edge);
}

#[test]
fn a_rounded_integer_is_rounded_once() {
    for v in [9_007_199_254_740_993i64, i64::MAX, i64::MAX - 512, 1 << 62, 4_611_686_018_427_387_903] {
        let bits = from_i64(v);
        assert_eq!(bits, (v as f64).to_bits());
        assert_eq!(from_i64(to_i64(bits)), bits);
    }
}
