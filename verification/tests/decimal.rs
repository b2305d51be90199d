use terralux::decimal::parse_small;

#[test]
fn small_decimals_agree_with_the_standard_parser() {
    let texts = [
        "0", "7", "42", "127", "128", "129", "-128", "-129", "+127", "+128", "-0", "+0", "00000127",
        "0000000000000000000000000128", "-000128", "", "+", "-", "++1", "--1", "+-1", "1+", "1-",
        " 1", "1 ", "1_0", "0x10", "1e1", "12a", "a12", "١٢", "99999999999999999999999999",
    ];
    for text in texts {
        let expected = text.parse::<i8>().ok();
        assert_eq!(parse_small(text, 0, text.chars().count()), expected, "{text:?}");
    }
}

#[test]
fn small_decimals_of_a_part_of_the_text() {
    assert_eq!(parse_small("ab12cd", 2, 4), Some(12));
    assert_eq!(parse_small("ab12cd", 2, 5), None);
    assert_eq!(parse_small("ab-7cd", 2, 4), Some(-7));
    assert_eq!(parse_small("ab12cd", 3, 3), None);
    assert_eq!(parse_small("é12", 1, 3), Some(12));
}
