use nes::text::{join_space, parse_uint, split_n, split_whitespace, trim_end_char, trim_str};

#[test]
fn trimming() {
    assert_eq!(trim_str("  a b \t"), "a b");
    assert_eq!(trim_str("   "), "");
    assert_eq!(trim_end_char("4**", '*'), "4");
    assert_eq!(trim_end_char("*4", '*'), "*4");
}

#[test]
fn splitting() {
    assert_eq!(split_whitespace("  a  bc\td "), vec!["a", "bc", "d"]);
    assert_eq!(split_whitespace("   ").len(), 0);
    assert_eq!(split_n("a b c", 2, ' '), vec!["a", "b c"]);
    assert_eq!(split_n("abc", 2, ' '), vec!["abc"]);
    assert_eq!(split_n("+ + + - - + x", 6, ' '), vec!["+", "+", "+", "-", "-", "+ x"]);
    assert_eq!(split_n("", 6, ' '), vec![""]);
}

#[test]
fn numbers() {
    assert_eq!(parse_uint("7D", 16, 255), Some(0x7d));
    assert_eq!(parse_uint("7d", 16, 255), Some(0x7d));
    assert_eq!(parse_uint("ZZ", 16, 255), None);
    assert_eq!(parse_uint("100", 16, 255), None);
    assert_eq!(parse_uint("+12", 10, usize::MAX), Some(12));
    assert_eq!(parse_uint("+", 10, usize::MAX), None);
    assert_eq!(parse_uint("", 10, usize::MAX), None);
    assert_eq!(parse_uint("-1", 10, usize::MAX), None);
    assert_eq!(parse_uint("99999999999999999999999", 10, usize::MAX), None);
}

#[test]
fn joining() {
    let parts = vec!["ADC".to_string(), "oper,X".to_string()];
    assert_eq!(join_space(&parts), "ADC oper,X");
    assert_eq!(join_space(&vec![]), "");
}
