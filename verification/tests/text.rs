use webworker::text::{debug_bytes, parse_usize};

#[test]
fn parse_usize_agrees_with_std() {
    let inputs = [
        "0", "42", "+7", "007", "", "+", "-", "-1", " 1", "1 ", "12a", "1_000",
        "18446744073709551615", "18446744073709551616", "99999999999999999999999", "+0", "++1",
        "٣",
    ];
    for s in inputs {
        assert_eq!(parse_usize(s), s.parse::<usize>().ok(), "input {:?}", s);
    }
}

#[test]
fn parse_usize_examples() {
    assert_eq!(parse_usize("42"), Some(42));
    assert_eq!(parse_usize("+7"), Some(7));
    assert_eq!(parse_usize("abc"), None);
    assert_eq!(parse_usize(""), None);
}

#[test]
fn debug_bytes_agrees_with_debug_format() {
    let cases: Vec<Vec<u8>> = vec![vec![], vec![0], vec![9, 10, 99, 100, 255], vec![1, 2, 3]];
    for v in cases {
        assert_eq!(debug_bytes(&v), format!("{:?}", v));
    }
    assert_eq!(debug_bytes(&[7, 200]), "[7, 200]");
}

#[test]
fn written_numbers_read_back() {
    for b in 0..=255u8 {
        let text = debug_bytes(&[b]);
        let digits = &text[1..text.len() - 1];
        assert_eq!(parse_usize(digits), Some(b as usize));
    }
}
