use nice_trader::string::mask_api_key;

#[test]
fn test_mask_api_key() {
    let cases = [
        ("", ""),
        ("a", "*"),
        ("abc", "***"),
        ("abcdefgh", "********"),
        ("abcdefghi", "abcd...fghi"),
        ("abcdefghijklmnop", "abcd...mnop"),
        ("VeryLongAPIKey123456789", "Very...6789"),
    ];
    for (input, expected) in cases {
        assert_eq!(mask_api_key(input), expected);
    }
}

#[test]
fn test_mask_api_key_multibyte() {
    assert_eq!(mask_api_key("ключключ"), "********");
    assert_eq!(mask_api_key("ключ-ключ"), "ключ...ключ");
}
