use cleanmeter::text::{
    c_str_end, contains, decode_lossy, is_white_space_char, read_utf8_string, str_chars, trim_slice,
};

fn chars(s: &str) -> Vec<char> {
    s.chars().collect()
}

#[test]
fn white_space_matches_std_for_every_char() {
    for u in 0u32..=0x10FFFF {
        if let Some(c) = char::from_u32(u) {
            assert_eq!(is_white_space_char(c), c.is_whitespace(), "code point {:#x}", u);
        }
    }
}

#[test]
fn trim_matches_str_trim() {
    let samples = [
        "", " ", "abc", "  abc  ", "\t\n a b \r\n", "\u{3000}x\u{2009}", "\u{85}\u{a0}", "a\u{200b}",
    ];
    for s in samples {
        let cs = chars(s);
        let kept: String = trim_slice(&cs, false).iter().collect();
        assert_eq!(kept, s.trim(), "sample {:?}", s);
    }
}

#[test]
fn trim_nul_matches_trim_matches() {
    let samples = ["", "\0", "\0\0abc\0", "a\0b", " \0x\0 "];
    for s in samples {
        let cs = chars(s);
        let kept: String = trim_slice(&cs, true).iter().collect();
        assert_eq!(kept, s.trim_matches('\0'), "sample {:?}", s);
    }
}

#[test]
fn c_str_end_stops_at_first_nul() {
    assert_eq!(c_str_end(b"abc\0def\0"), 3);
    assert_eq!(c_str_end(b"\0abc"), 0);
    assert_eq!(c_str_end(b"abc"), 3);
    assert_eq!(c_str_end(b""), 0);
}

#[test]
fn read_utf8_string_takes_text_before_nul_and_trims() {
    assert_eq!(read_utf8_string(b"  CPU Package \0garbage"), "CPU Package");
    assert_eq!(read_utf8_string(b"\0\0\0\0"), "");
    assert_eq!(read_utf8_string(b"GPU"), "GPU");
    assert_eq!(read_utf8_string(b" \t "), "");
}

#[test]
fn read_utf8_string_decodes_lossily() {
    let bytes = [b'a', 0xff, b'b', 0];
    assert_eq!(read_utf8_string(&bytes), "a\u{fffd}b");
    let bytes = "Temp °C\0".as_bytes();
    assert_eq!(read_utf8_string(bytes), "Temp °C");
}

#[test]
fn contains_finds_substrings() {
    assert!(contains(&chars("hello world"), &chars("lo w")));
    assert!(contains(&chars("abc"), &chars("")));
    assert!(contains(&chars("abc"), &chars("abc")));
    assert!(!contains(&chars("abc"), &chars("abcd")));
    assert!(!contains(&chars("abcabd"), &chars("abe")));
    assert!(contains(&chars("aaab"), &chars("aab")));
}

#[test]
fn str_chars_lists_characters() {
    assert_eq!(str_chars("añb"), vec!['a', 'ñ', 'b']);
    assert_eq!(str_chars(""), Vec::<char>::new());
}

#[test]
fn rereading_a_field_changes_nothing() {
    let fields: [&[u8]; 7] = [
        b"  CPU \0x\0",
        "Temp °C\t".as_bytes(),
        b"\0abc",
        b"plain",
        &[b' ', 0xff, b'a', 0],
        &[0xc0, 0x80, b' ', 0xed, 0xa0, 0x80],
        &[0xf0, 0x9f, 0x98, b'x', 0xe2, 0x80],
    ];
    for bytes in fields {
        let r = read_utf8_string(bytes);
        assert!(!r.contains('\0'));
        assert_eq!(r, r.trim());
        assert_eq!(read_utf8_string(r.as_bytes()), r);
    }
}

#[test]
fn decode_lossy_replaces_invalid_sequences() {
    assert_eq!(decode_lossy(b"ab"), vec!['a', 'b']);
    assert_eq!(decode_lossy(&[0xff, b'a']), vec!['\u{fffd}', 'a']);
    assert_eq!(decode_lossy(&[0xc0, 0x80]), vec!['\u{fffd}', '\u{fffd}']);
    assert_eq!(decode_lossy(&[b'a', 0, b'b']), vec!['a', '\0', 'b']);
    assert_eq!(decode_lossy("°".as_bytes()), vec!['°']);
    assert!(!decode_lossy(&[0xc0, 0x80, 0xe2, 0x82]).contains(&'\0'));
}
