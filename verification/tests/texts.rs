use mersey_host::text::{
    characters, double_percents, from_utf16, same, str_from, text_of, to_decimal, to_index,
    to_json_array, to_utf16,
};

#[test]
fn a_name_is_read_from_utf8() {
    assert_eq!(str_from("pathname".as_bytes()), "pathname");
    assert_eq!(str_from("h\u{e9}llo \u{1f600}".as_bytes()), "h\u{e9}llo \u{1f600}");
    assert_eq!(str_from(&[]), "");
}

#[test]
fn a_name_that_is_not_utf8_reads_as_empty() {
    assert_eq!(str_from(&[0x61, 0xff, 0x62]), "");
    assert_eq!(str_from(&[0xed, 0xa0, 0x80]), "");
    assert_eq!(str_from(&[0xe2, 0x82]), "");
}

#[test]
fn text_is_written_as_utf16() {
    let text = "a\u{e9}\u{20ac}\u{ffff}\u{10000}\u{1f600}\u{10ffff}";
    assert_eq!(to_utf16(text), text.encode_utf16().collect::<Vec<u16>>());
    assert_eq!(to_utf16("\u{1f600}"), vec![0xd83d, 0xde00]);
    assert_eq!(to_utf16(""), Vec::<u16>::new());
}

#[test]
fn utf16_is_read_with_replacements() {
    let cases: Vec<Vec<u16>> = vec![
        vec![],
        vec![0x61, 0x62],
        vec![0xd83d, 0xde00],
        vec![0xd83d],
        vec![0xde00],
        vec![0xde00, 0xd83d],
        vec![0xd83d, 0x61],
        vec![0xd83d, 0xd83d, 0xde00],
        vec![0x61, 0xdbff, 0xdfff, 0xe000, 0xffff],
    ];
    for units in cases {
        assert_eq!(from_utf16(&units), String::from_utf16_lossy(&units));
    }
    assert_eq!(from_utf16(&vec![0xd83d, 0x61]), "\u{fffd}a");
}

#[test]
fn utf16_round_trips() {
    for text in ["", "plain", "\u{0}\u{7f}\u{d7ff}\u{e000}", "\u{10000}x\u{10ffff}"] {
        assert_eq!(from_utf16(&to_utf16(text)), text);
    }
}

#[test]
fn integers_are_written_in_decimal() {
    for v in [0, 1, 9, 10, 99, 100, -1, -10, 1234567890123, i64::MAX, i64::MIN] {
        assert_eq!(to_decimal(v), v.to_string());
    }
}

#[test]
fn an_index_is_one_to_nine_digits() {
    assert_eq!(to_index("0"), Some(0));
    assert_eq!(to_index("007"), Some(7));
    assert_eq!(to_index("999999999"), Some(999_999_999));
    assert_eq!(to_index("1000000000"), None);
    assert_eq!(to_index(""), None);
    assert_eq!(to_index("-1"), None);
    assert_eq!(to_index("1a"), None);
    assert_eq!(to_index("\u{661}"), None);
}

#[test]
fn percent_signs_are_doubled() {
    let chars = characters("!50% of %s%%");
    assert_eq!(double_percents(&chars, 0), "!50%% of %%s%%%%");
    assert_eq!(double_percents(&chars, 1), "50%% of %%s%%%%");
    assert_eq!(double_percents(&chars, chars.len()), "");
}

#[test]
fn items_are_written_as_a_json_array() {
    assert_eq!(to_json_array(&vec![]), "[]");
    assert_eq!(to_json_array(&vec!["1".to_string()]), "[1]");
    assert_eq!(
        to_json_array(&vec!["1".to_string(), "2.5".to_string(), "-0".to_string()]),
        "[1,2.5,-0]"
    );
}

#[test]
fn texts_are_compared_by_their_characters() {
    assert!(same("style", "style"));
    assert!(!same("style", "styles"));
    assert!(!same("style", "Style"));
    assert!(same("", ""));
    assert_eq!(text_of(&characters("\u{1f600}!")), "\u{1f600}!");
}
