use portmanager::number::{format_decimal, format_prefixed_hex, format_signed, parse_i32, parse_u16};
use portmanager::text::{
    after_prefix, is_before, is_whitespace, join, replace_char, same_text, slice_text,
    split_lines, split_words, to_chars, trim,
};

const SAMPLES: [&str; 14] = [
    "",
    " ",
    "one",
    " one",
    "one ",
    "  one\ttwo \u{a0}three\u{3000}",
    "Linux x86_64\n",
    "a\nb\r\nc",
    "a\n\nb\n",
    "tail\r",
    "\r\n",
    "\n",
    "größe \u{2028} ☃ \u{1f600}",
    "C 127.0.0.1 80\n",
];

#[test]
fn white_space_is_the_unicode_property() {
    for n in 0..=0x10ffffu32 {
        if let Some(c) = char::from_u32(n) {
            assert_eq!(is_whitespace(c), c.is_whitespace(), "U+{:04X}", n);
        }
    }
}

#[test]
fn words_are_cut_at_white_space() {
    for s in SAMPLES {
        let expected: Vec<String> = s.split_whitespace().map(|w| w.to_string()).collect();
        assert_eq!(split_words(s), expected, "{:?}", s);
    }
    assert_eq!(split_words("  one\ttwo "), vec!["one", "two"]);
}

#[test]
fn trimming_takes_both_ends() {
    for s in SAMPLES {
        assert_eq!(trim(s), s.trim(), "{:?}", s);
    }
    assert_eq!(trim("\t a b \n"), "a b");
}

#[test]
fn trimming_keeps_the_words() {
    for s in SAMPLES {
        assert_eq!(split_words(&trim(s)), split_words(s), "{:?}", s);
    }
}

#[test]
fn lines_are_cut_at_line_feeds() {
    for s in SAMPLES {
        let expected: Vec<String> = s.lines().map(|l| l.to_string()).collect();
        assert_eq!(split_lines(s), expected, "{:?}", s);
    }
    assert_eq!(split_lines("a\r\nb\rc\n"), vec!["a", "b\rc"]);
}

#[test]
fn prefixes_are_stripped() {
    for s in SAMPLES {
        for t in SAMPLES {
            assert_eq!(
                after_prefix(s, t),
                s.strip_prefix(t).map(|r| r.to_string()),
                "{:?} before {:?}",
                t,
                s
            );
            assert_eq!(same_text(s, t), s == t);
        }
    }
    assert_eq!(after_prefix("hostname a", "hostname "), Some("a".to_string()));
    assert_eq!(after_prefix("hostname", "hostname "), None);
}

#[test]
fn texts_are_ordered_like_strings() {
    for s in SAMPLES {
        for t in SAMPLES {
            assert_eq!(is_before(s, t), s < t, "{:?} before {:?}", s, t);
        }
    }
    assert!(is_before("\u{ffff}", "\u{10000}"));
    assert!(is_before("a", "ab"));
}

#[test]
fn replacing_and_joining() {
    for s in SAMPLES {
        assert_eq!(replace_char(s, '\n', ' '), s.replace('\n', " "));
    }
    assert_eq!(join(&vec![], ", "), "");
    assert_eq!(join(&vec!["a".to_string()], ", "), "a");
    assert_eq!(join(&vec!["a".to_string(), "b".to_string(), "".to_string()], ", "), "a, b, ");
}

#[test]
fn joined_words_are_read_back() {
    let list = vec!["blue".to_string(), "host".to_string(), "größe".to_string()];
    assert_eq!(split_words(&join(&list, " ")), list);
    assert_eq!(split_words(&format!("{}\n", join(&list, " "))), list);
}

#[test]
fn characters_are_sliced() {
    let chars = to_chars("a☃b");
    assert_eq!(chars, vec!['a', '☃', 'b']);
    assert_eq!(slice_text(&chars, 1, 3), "☃b");
    assert_eq!(slice_text(&chars, 2, 2), "");
}

#[test]
fn numbers_are_written_in_decimal() {
    for n in [0u32, 1, 9, 10, 99, 100, 65535, 4294967295] {
        assert_eq!(format_decimal(n), n.to_string());
    }
    for n in [0i32, 7, -1, -10, 2147483647, -2147483648] {
        assert_eq!(format_signed(n), n.to_string());
    }
}

#[test]
fn bytes_are_written_in_hexadecimal() {
    for n in 0..=255u8 {
        assert_eq!(format_prefixed_hex(n), format!("{:#x}", n));
    }
    assert_eq!(format_prefixed_hex(10), "0xa");
    assert_eq!(format_prefixed_hex(0x58), "0x58");
}

#[test]
fn numbers_are_read_like_integers() {
    let texts = [
        "", "0", "80", "+80", "-80", "-0", "+", "-", "65535", "65536", "0065535", "99999999999999999999",
        "8o", " 80", "80 ", "2147483647", "2147483648", "-2147483648", "-2147483649", "+-1", "１",
    ];
    for s in texts {
        assert_eq!(parse_u16(s), s.parse::<u16>().ok(), "{:?}", s);
        assert_eq!(parse_i32(s), s.parse::<i32>().ok(), "{:?}", s);
    }
    assert_eq!(parse_u16("443"), Some(443));
    assert_eq!(parse_i32("-12"), Some(-12));
}

#[test]
fn written_numbers_are_read_back() {
    for n in 0..=65535u16 {
        assert_eq!(parse_u16(&format_decimal(n as u32)), Some(n));
    }
    for n in [0i32, 1, -1, 2147483647, -2147483648] {
        assert_eq!(parse_i32(&format_signed(n)), Some(n));
    }
}
