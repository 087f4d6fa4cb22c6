use trading_sys::decimal::{decimal_chars, parse_u32, parse_u64};
use trading_sys::text::{split_chars, trim_chars, words_of};

fn chars(s: &str) -> Vec<char> {
    s.chars().collect()
}

#[test]
fn decimal_parse_matches_std() {
    for s in ["0", "7", "+12", "18446744073709551615", "18446744073709551616", "", "+", "-1", "1 ", "00", "4294967296"] {
        assert_eq!(parse_u64(&chars(s)), s.parse::<u64>().ok(), "u64 {:?}", s);
        assert_eq!(parse_u32(&chars(s)), s.parse::<u32>().ok(), "u32 {:?}", s);
    }
}

#[test]
fn decimal_round_trip() {
    for n in [0u64, 9, 10, 1234567890, u64::MAX] {
        let d = decimal_chars(n);
        assert_eq!(d.iter().collect::<String>(), n.to_string());
        assert_eq!(parse_u64(&d), Some(n));
    }
}

#[test]
fn split_trim_words() {
    let pieces: Vec<String> = split_chars(&chars("a,,b,"), ',').iter().map(|p| p.iter().collect()).collect();
    assert_eq!(pieces, vec!["a", "", "b", ""]);
    let t: String = trim_chars(&chars("\u{3000} x y \t")).iter().collect();
    assert_eq!(t, "x y");
    let w: Vec<String> = words_of(&chars("  ADD 1\u{a0}X  ")).iter().map(|p| p.iter().collect()).collect();
    assert_eq!(w, vec!["ADD", "1", "X"]);
}
