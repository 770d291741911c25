use popalarm::text::{
    int_to_text, is_blank, nat_text, pad2_text, parse_i32, parse_u32, parse_u8, split_str, trim_str,
};

#[test]
fn split_keeps_empty_pieces() {
    assert_eq!(split_str("a,,b", ','), vec!["a", "", "b"]);
    assert_eq!(split_str("", ','), vec![""]);
    assert_eq!(split_str(",", ','), vec!["", ""]);
    assert_eq!(split_str("::30", ':'), vec!["", "", "30"]);
}

#[test]
fn split_then_join_gives_text_back() {
    for s in ["", ",", "a,b,,c", "1:2:3", "x"] {
        assert_eq!(split_str(s, ',').join(","), s);
    }
}

#[test]
fn trim_removes_white_space_at_both_ends() {
    assert_eq!(trim_str("  x y \t\n"), "x y");
    assert_eq!(trim_str("\u{3000}12\u{a0}"), "12");
    assert_eq!(trim_str(""), "");
    assert!(is_blank(" \t "));
    assert!(!is_blank(" a "));
}

#[test]
fn numbers_are_written_in_decimal() {
    assert_eq!(nat_text(0), "0");
    assert_eq!(nat_text(1234), "1234");
    assert_eq!(int_to_text(-45), "-45");
    assert_eq!(int_to_text(i32::MIN), "-2147483648");
    assert_eq!(pad2_text(7), "07");
    assert_eq!(pad2_text(90), "90");
    assert_eq!(pad2_text(123), "123");
}

#[test]
fn parsing_follows_std() {
    for s in ["", "+", "-", "12", "+12", "-12", " 1", "1 ", "4294967295", "4294967296", "00", "1a"] {
        assert_eq!(parse_u32(s), s.parse::<u32>().ok(), "u32 {:?}", s);
        assert_eq!(parse_i32(s), s.parse::<i32>().ok(), "i32 {:?}", s);
        assert_eq!(parse_u8(s), s.parse::<u8>().ok(), "u8 {:?}", s);
    }
    assert_eq!(parse_i32("-2147483648"), Some(i32::MIN));
    assert_eq!(parse_i32("2147483648"), None);
    assert_eq!(parse_u8("255"), Some(255));
    assert_eq!(parse_u8("256"), None);
}

#[test]
fn number_text_parses_back() {
    for i in [0, 7, -1, 100, i32::MAX, i32::MIN] {
        assert_eq!(parse_i32(&int_to_text(i)), Some(i));
    }
}
