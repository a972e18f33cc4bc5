use vkbot::mask_secret::mask;

#[test]
fn test_log_secret() {
    assert_eq!(mask(""), "**");
    assert_eq!(mask("1"), "**");
    assert_eq!(mask("123"), "1**");
    assert_eq!(mask("123456"), "1*****");
    assert_eq!(mask("1234567"), "12***67");
    assert_eq!(mask("123456789"), "12*****89");
}

#[test]
fn mask_two_characters() {
    assert_eq!(mask("12"), "**");
}

#[test]
fn mask_seven_multibyte_characters() {
    assert_eq!(mask("äöüßäöü"), "äö***öü");
}
