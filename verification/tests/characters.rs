use portkill::text::{
    chars_of, decimal, decode, find_char, has_part, has_prefix, has_suffix, is_control, is_white,
    join_spaced, parse_number, rest_after_last, same, same_text, split_lines, split_words, text_of,
    to_lower, trimmed, trimmed_end,
};

const SAMPLES: &[&str] = &[
    "",
    " ",
    "a",
    " a  b\tc ",
    "\u{a0}x\u{3000}",
    "one\ntwo\r\nthree\r",
    "\n\n",
    "a\n",
    "a\r",
    "\r\n",
    "é → ✨",
    "::1:3000",
    "key=value=more",
];

fn strings(parts: &[&[char]]) -> Vec<String> {
    parts.iter().map(|p| text_of(p)).collect()
}

#[test]
fn white_space_is_that_of_unicode() {
    for c in '\0'..=char::MAX {
        assert_eq!(is_white(c), c.is_whitespace(), "{:x}", c as u32);
    }
}

#[test]
fn control_characters_are_those_of_unicode() {
    for c in '\0'..=char::MAX {
        assert_eq!(is_control(c), c.is_control(), "{:x}", c as u32);
    }
}

#[test]
fn lower_case_is_that_of_ascii() {
    for c in '\0'..=char::MAX {
        assert_eq!(to_lower(c), c.to_ascii_lowercase(), "{:x}", c as u32);
    }
}

#[test]
fn texts_and_characters() {
    for s in SAMPLES {
        let chars = chars_of(s);
        assert_eq!(chars, s.chars().collect::<Vec<char>>());
        assert_eq!(text_of(&chars), *s);
        assert!(same(&chars, &chars));
        assert!(same_text(&chars, s));
        assert!(!same_text(&chars, "something else"));
    }
}

#[test]
fn trimming() {
    for s in SAMPLES {
        assert_eq!(text_of(trimmed(&chars_of(s))), s.trim());
        assert_eq!(text_of(trimmed_end(&chars_of(s))), s.trim_end());
    }
}

#[test]
fn words_and_lines() {
    for s in SAMPLES {
        let chars = chars_of(s);
        assert_eq!(
            strings(&split_words(&chars)),
            s.split_whitespace().collect::<Vec<_>>()
        );
        assert_eq!(
            strings(&split_lines(&chars)),
            s.lines().collect::<Vec<_>>(),
            "{s:?}"
        );
    }
}

#[test]
fn searching() {
    for s in SAMPLES {
        let chars = chars_of(s);
        for c in [':', '=', ' ', '\n', 'x'] {
            assert_eq!(
                find_char(&chars, c),
                s.chars().position(|d| d == c).unwrap_or(chars.len())
            );
            assert_eq!(
                text_of(rest_after_last(&chars, c)),
                s.rsplit(c).next().unwrap()
            );
        }
        for part in SAMPLES {
            let p = chars_of(part);
            assert_eq!(has_part(&chars, &p), s.contains(part));
            assert_eq!(has_prefix(&chars, part), s.starts_with(part));
            assert_eq!(has_suffix(&chars, &p), s.ends_with(part));
        }
    }
}

#[test]
fn joining_words() {
    let chars = chars_of(" a  b\tc ");
    let words = split_words(&chars);
    assert_eq!(join_spaced(&words, 0, 3), "a b c");
    assert_eq!(join_spaced(&words, 1, 2), "b");
    assert_eq!(join_spaced(&words, 1, 1), "");
}

#[test]
fn numbers_are_read_as_std_reads_them() {
    for s in [
        "", "0", "7", "007", "65535", "65536", "+1", "+", "++1", "-1", "-0", " 1", "1 ", "12a",
        "18446744073709551615", "18446744073709551616", "١",
    ] {
        let chars = chars_of(s);
        assert_eq!(
            parse_number(&chars, 10, u64::MAX),
            s.parse::<u64>().ok(),
            "{s:?}"
        );
        assert_eq!(
            parse_number(&chars, 10, 65535),
            s.parse::<u16>().ok().map(u64::from),
            "{s:?}"
        );
    }
    for s in ["0A", "0a", "ff", "FF", "100", "g", "+f", ""] {
        assert_eq!(
            parse_number(&chars_of(s), 16, 255),
            u8::from_str_radix(s, 16).ok().map(u64::from),
            "{s:?}"
        );
    }
}

#[test]
fn numbers_read_back_as_written() {
    for n in [0, 1, 9, 10, 99, 100, 65535, u64::MAX] {
        assert_eq!(decimal(n), n.to_string());
        assert_eq!(parse_number(&chars_of(&decimal(n)), 10, n), Some(n));
    }
}

#[test]
fn bytes_are_decoded() {
    assert_eq!(decode("é→".as_bytes()), "é→");
    assert_eq!(decode(b"a\xffb"), "a\u{fffd}b");
    assert_eq!(decode(b""), "");
}
