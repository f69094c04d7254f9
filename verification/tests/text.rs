use kbdgen::text::{
    char_is_white_space, concat_text, decode_unicode_escapes, encode_utf16, encode_utf16_le_bom, join_strings, push_text,
    remove_char, replace_all_chars, replace_str, split_keys, split_lines, u64_to_decimal, u64_to_padded_decimal,
    u64_to_padded_hex,
};

#[test]
fn numbers_are_written_in_decimal_and_hex() {
    assert_eq!(u64_to_decimal(0), "0");
    assert_eq!(u64_to_decimal(32768), "32768");
    assert_eq!(u64_to_padded_decimal(7, 3), "007");
    assert_eq!(u64_to_padded_decimal(1234, 3), "1234");
    assert_eq!(u64_to_padded_hex(0xe1, 4), "00e1");
    assert_eq!(u64_to_padded_hex(0x1f600, 4), "1f600");
}

#[test]
fn white_space_is_unicode_white_space() {
    assert!(char_is_white_space(' '));
    assert!(char_is_white_space('\u{3000}'));
    assert!(!char_is_white_space('a'));
    assert!(!char_is_white_space('\u{200b}'));
}

#[test]
fn layers_split_into_keys_at_white_space() {
    assert_eq!(split_keys("  a b\tc\n d  "), vec!["a", "b", "c", "d"]);
    assert!(split_keys("   ").is_empty());
    for key in split_keys("q w\u{3000}e\r\nr") {
        assert!(!key.is_empty());
        assert!(!key.chars().any(char::is_whitespace));
    }
}

#[test]
fn unicode_escapes_are_decoded() {
    assert_eq!(decode_unicode_escapes("\\u{e1}"), "á");
    assert_eq!(decode_unicode_escapes("a\\u{1F600}b"), "a😀b");
    assert_eq!(decode_unicode_escapes("\\u{}"), "\\u{}");
    assert_eq!(decode_unicode_escapes("\\u{1234567}"), "\\u{1234567}");
}

#[test]
fn text_without_backslashes_decodes_to_itself() {
    for s in ["", "plain", "á ŋ 😀", "{u}"] {
        assert_eq!(decode_unicode_escapes(s), s);
    }
}

#[test]
fn utf16_units_and_bytes() {
    assert_eq!(encode_utf16("a😀"), vec![0x61, 0xd83d, 0xde00]);
    assert_eq!(encode_utf16_le_bom("aá"), vec![0xff, 0xfe, 0x61, 0x00, 0xe1, 0x00]);
}

#[test]
fn utf16_bytes_read_back_as_the_units() {
    let text = "Ŋ😀x";
    let bytes = encode_utf16_le_bom(text);
    assert_eq!(bytes.len(), 2 + 2 * text.encode_utf16().count());
    let units: Vec<u16> = bytes[2..].chunks(2).map(|c| c[0] as u16 + c[1] as u16 * 256).collect();
    assert_eq!(units, text.encode_utf16().collect::<Vec<_>>());
}

#[test]
fn replacing_and_removing() {
    assert_eq!(replace_all_chars("a-b-c", '-', "__"), "a__b__c");
    assert_eq!(remove_char("\"quoted\"", '"'), "quoted");
    assert_eq!(replace_str("{} keyboard", "{}", "Sámi"), "Sámi keyboard");
    assert_eq!(replace_str("aaa", "aa", "b"), "ba");
    assert_eq!(replace_str("abc", "", "x"), "abc");
    assert_eq!(replace_str("a(b)", "(", ""), "ab)");
}

#[test]
fn lines_are_split_as_str_lines() {
    assert_eq!(split_lines("a\nb\r\nc"), vec!["a", "b", "c"]);
    assert_eq!(split_lines("a\n\nb\n"), vec!["a", "", "b"]);
    assert!(split_lines("").is_empty());
    assert_eq!(split_lines("x\r"), vec!["x\r"]);
    for line in split_lines("one\ntwo\r\n\nthree") {
        assert!(!line.contains('\n'));
    }
}

#[test]
fn joining_and_concatenating() {
    assert_eq!(join_strings(&vec!["a".to_string(), "b".to_string(), "c".to_string()], ","), "a,b,c");
    assert_eq!(join_strings(&vec![], ","), "");
    assert_eq!(concat_text("ab", "cd"), "abcd");
    let mut v = vec!["x".to_string()];
    push_text(&mut v, "y".to_string());
    assert_eq!(v, vec!["x", "y"]);
}
