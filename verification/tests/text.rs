use stream_desk::names::NameMap;
use stream_desk::text::{
    i32_to_text, parse_i32, parse_u32, push_two_digits, split_once, text_less, u32_to_text,
};

#[test]
fn numbers_are_written_in_decimal() {
    assert_eq!(u32_to_text(0), "0");
    assert_eq!(u32_to_text(100_000), "100000");
    assert_eq!(u32_to_text(u32::MAX), "4294967295");
    assert_eq!(i32_to_text(i32::MIN), "-2147483648");
    assert_eq!(i32_to_text(42), "42");
}

#[test]
fn two_digits_are_padded_with_a_zero() {
    let mut text = String::new();
    push_two_digits(&mut text, 7);
    text.push('|');
    push_two_digits(&mut text, 61);
    text.push('|');
    push_two_digits(&mut text, -2);
    assert_eq!(text, format!("{:02}|{:02}|{:02}", 7, 61, -2));
}

#[test]
fn numbers_are_read_as_the_standard_library_reads_them() {
    for text in [
        "0", "7", "+7", "-7", "00012", "4294967295", "4294967296", "2147483647", "2147483648",
        "-2147483648", "-2147483649", "", "+", "-", "+-1", " 1", "1 ", "1_0", "x", "٣", "-0",
        "99999999999999999999",
    ] {
        assert_eq!(parse_u32(text), text.parse::<u32>().ok(), "{}", text);
        assert_eq!(parse_i32(text), text.parse::<i32>().ok(), "{}", text);
    }
}

#[test]
fn texts_are_ordered_by_their_bytes() {
    for a in ["", "a", "ab", "b", "é", "z", "2025-01-02", "2025-01-10"] {
        for b in ["", "a", "ab", "b", "é", "z", "2025-01-02", "2025-01-10"] {
            assert_eq!(text_less(a, b), a < b, "{} {}", a, b);
        }
    }
}

#[test]
fn messages_are_divided_at_the_first_separator() {
    for text in ["", "a: b", "a: b: c", ":", ": ", "a:b", "é: ü", "a:: b"] {
        assert_eq!(split_once(text), text.split_once(": "), "{}", text);
    }
}

#[test]
fn names_keep_one_value_each() {
    let mut map: NameMap<u32> = NameMap::new();
    map.insert("a".to_owned(), 1);
    map.insert("b".to_owned(), 2);
    map.insert("a".to_owned(), 3);
    assert_eq!(map.len(), 2);
    assert_eq!(map.name(0), "a");
    assert_eq!(map.value(0), 3);
    assert_eq!(map.get(&"b".to_owned()), Some(2));
    assert!(!map.contains(&"c".to_owned()));
    map.remove(&"a".to_owned());
    map.remove(&"c".to_owned());
    assert_eq!(map.len(), 1);
    assert_eq!(map.index_of(&"b".to_owned()), Some(0));
    assert_eq!(map.get(&"a".to_owned()), None);
    map.clear();
    assert_eq!(map.len(), 0);
}
