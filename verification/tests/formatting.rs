use hwpcore::decimal::{push_fixed1, push_fixed1_hundredths};
use hwpcore::json::{esc, escape_json};
use hwpcore::num::{dec_string, push_dec_i64, push_hex_alt, push_hex_alt_08};

fn fixed1(a: u128, b: u64) -> String {
    let mut s = String::new();
    push_fixed1(&mut s, a, b);
    s
}

fn hundredths(v: i32) -> String {
    let mut s = String::new();
    push_fixed1_hundredths(&mut s, v);
    s
}

#[test]
fn sizes_print_as_one_decimal_like_f64() {
    for v in -3000..=3000 {
        assert_eq!(hundredths(v), format!("{:.1}", v as f64 / 100.0), "size {v}");
    }
    for v in [i32::MAX, i32::MIN, i32::MAX - 5, 123_456_785, -99_999_995] {
        assert_eq!(hundredths(v), format!("{:.1}", v as f64 / 100.0), "size {v}");
    }
}

#[test]
fn known_size_roundings() {
    assert_eq!(hundredths(1200), "12.0");
    assert_eq!(hundredths(1035), "10.3"); // 10.35 is held as 10.3499...
    assert_eq!(hundredths(1025), "10.2"); // an exact tie goes to even
    assert_eq!(hundredths(1075), "10.8");
    assert_eq!(hundredths(-4), "-0.0");
}

#[test]
fn percentages_print_as_one_decimal_like_f64() {
    for t in 1u64..=300 {
        for n in 0..=t {
            let a = (n as u128) * 100;
            assert_eq!(fixed1(a, t), format!("{:.1}", n as f64 * 100.0 / t as f64), "{n}/{t}");
        }
    }
    assert_eq!(fixed1(300, 100), "3.0");
    assert_eq!(fixed1(100, 8), "12.5");
    assert_eq!(fixed1(100, 400), "0.2");
    let big = u64::MAX;
    assert_eq!(fixed1(big as u128 * 100, big), "100.0");
}

#[test]
fn json_escapes() {
    assert_eq!(escape_json("a\"b\\c\nd\re\tf"), "a\\\"b\\\\c\\nd\\re\\tf");
    assert_eq!(escape_json("표"), "표");
    assert_eq!(esc("a\"b\\c\nd"), "a\\\"b\\\\c\nd");
}

#[test]
fn numbers() {
    assert_eq!(dec_string(0), "0");
    assert_eq!(dec_string(u64::MAX), "18446744073709551615");
    let mut s = String::new();
    push_dec_i64(&mut s, i64::MIN);
    assert_eq!(s, i64::MIN.to_string());
    let mut h = String::new();
    push_hex_alt(&mut h, 0x1234);
    assert_eq!(h, format!("{:#x}", 0x1234));
    let mut h8 = String::new();
    push_hex_alt_08(&mut h8, 0x2a);
    assert_eq!(h8, format!("{:#010x}", 0x2a));
}
