use kepler::text::{chars_of, contains, not_after, push_decimal, push_hex_byte, split_first, trim};

#[test]
fn numerals_are_written() {
    for n in [0u64, 9, 10, 255, 1080, u64::MAX] {
        let mut out = String::from("n");
        push_decimal(&mut out, n);
        assert_eq!(out, format!("n{}", n));
    }
    for b in [0u8, 9, 10, 0xab, 0xff] {
        let mut out = String::new();
        push_hex_byte(&mut out, b);
        assert_eq!(out, format!("{:02x}", b));
    }
}

#[test]
fn trimming_agrees_with_the_standard() {
    for text in
        ["", " ", "a", " a b ", "\t\r\n\u{b}\u{c}x", "x\u{85}\u{a0}\u{1680}\u{2003}\u{2028}\u{3000}", "\u{200b}x", "\u{202f}\u{205f}y\u{2029}"]
    {
        assert_eq!(trim(text), text.trim());
    }
}

#[test]
fn substrings_are_found() {
    for (hay, needle) in [("abc", ""), ("", ""), ("", "a"), ("abc", "bc"), ("abc", "cb"), ("aab", "ab"), ("日本語", "本"), ("ab", "abc")] {
        assert_eq!(contains(hay, needle), hay.contains(needle));
    }
}

#[test]
fn the_first_part_ends_at_the_mark() {
    for text in ["a:b", ":", "", "abc", "a:b:c", "日:本"] {
        assert_eq!(split_first(text, ':'), text.split(':').next().unwrap());
    }
}

#[test]
fn texts_are_ordered_as_by_the_standard() {
    let all = ["", "a", "b", "ab", "é", "z", "日本", "\u{10000}", "\u{ffff}"];
    for a in all {
        for b in all {
            assert_eq!(not_after(a, b), a <= b);
        }
    }
}

#[test]
fn characters_are_listed() {
    assert_eq!(chars_of("aé日"), vec!['a', 'é', '日']);
}
