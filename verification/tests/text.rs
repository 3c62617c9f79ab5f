use stm15::number::{parse_port, to_decimal, to_two_digits};
use stm15::text::{align_right, clip, join, lines, same, to_lower, trim, words};

const WHITE: [u32; 25] = [
    0x9, 0xa, 0xb, 0xc, 0xd, 0x20, 0x85, 0xa0, 0x1680, 0x2000, 0x2001, 0x2002, 0x2003, 0x2004,
    0x2005, 0x2006, 0x2007, 0x2008, 0x2009, 0x200a, 0x2028, 0x2029, 0x202f, 0x205f, 0x3000,
];

#[test]
fn white_space_is_what_unicode_lists() {
    for code in 0..=0x10ffffu32 {
        if let Some(c) = char::from_u32(code) {
            let mut s = String::new();
            s.push(c);
            assert_eq!(trim(&s).is_empty(), WHITE.contains(&code), "U+{code:04X}");
        }
    }
}

#[test]
fn trimming_takes_white_space_from_both_ends_only() {
    assert_eq!(trim("  a b\t"), "a b");
    assert_eq!(trim("\r\n x \u{3000}"), "x");
    assert_eq!(trim("   "), "");
    assert_eq!(trim(""), "");
}

#[test]
fn lines_are_separated_by_line_feeds() {
    assert_eq!(lines("a\nb"), vec!["a", "b"]);
    assert_eq!(lines("a\n\nb\n"), vec!["a", "", "b", ""]);
    assert_eq!(lines("a\r\nb"), vec!["a\r", "b"]);
    assert_eq!(lines(""), vec![""]);
}

#[test]
fn words_are_separated_by_white_space() {
    assert_eq!(words("a  bc\td"), vec!["a", "bc", "d"]);
    assert_eq!(words("  lead and trail  "), vec!["lead", "and", "trail"]);
    assert!(words(" \t ").is_empty());
    assert!(words("").is_empty());
}

#[test]
fn ascii_letters_are_put_in_lower_case() {
    for code in 0..128u8 {
        let c = code as char;
        assert_eq!(to_lower(&c.to_string()), c.to_ascii_lowercase().to_string());
    }
    assert_eq!(to_lower("HostName"), "hostname");
}

#[test]
fn other_letters_are_put_in_lower_case_too() {
    assert_eq!(to_lower("ÄÖÜ"), "äöü");
    assert_eq!(to_lower("ΟΔΟΣ"), "οδος");
}

#[test]
fn strings_are_compared_by_their_characters() {
    assert!(same("local", "local"));
    assert!(!same("local", "Local"));
    assert!(!same("local", "loca"));
    assert!(same("", ""));
}

#[test]
fn clipping_counts_characters() {
    assert_eq!(clip("abcdef", 3), "abc");
    assert_eq!(clip("äöü", 2), "äö");
    assert_eq!(clip("abc", 3), "abc");
    assert_eq!(clip("abc", 10), "abc");
    assert_eq!(clip("abc", 0), "");
}

#[test]
fn alignment_counts_characters() {
    assert_eq!(align_right("Name", 14), format!("{:>14}", "Name"));
    assert_eq!(align_right("Größe", 14), format!("{:>14}", "Größe"));
    assert_eq!(align_right("", 3), "   ");
    assert_eq!(align_right("longer than that", 14), "longer than that");
}

#[test]
fn joining_puts_separators_between() {
    let parts = vec!["a".to_string(), "b".to_string(), "c".to_string()];
    assert_eq!(join(&parts, " | "), "a | b | c");
    assert_eq!(join(&vec!["a".to_string()], " | "), "a");
    assert_eq!(join(&Vec::new(), " | "), "");
}

#[test]
fn every_port_is_read_back() {
    for port in 0..=u16::MAX {
        let text = to_decimal(port as u64);
        assert_eq!(text, port.to_string());
        assert_eq!(parse_port(&text), Some(port));
    }
}

#[test]
fn ports_are_read_as_integers_are() {
    let texts = [
        "22", "+22", "0022", "65535", "65536", "99999999999999999999", "", "+", "-1", "-0", "++1",
        " 22", "22 ", "2 2", "0x16", "1_000", "٣", "22a", "+65535", "00000000000000000000000001",
    ];
    for text in texts {
        assert_eq!(parse_port(text), text.parse::<u16>().ok(), "{text:?}");
    }
    assert_eq!(parse_port("+22"), Some(22));
    assert_eq!(parse_port("65536"), None);
}

#[test]
fn numbers_are_written_in_decimal() {
    assert_eq!(to_decimal(0), "0");
    assert_eq!(to_decimal(10), "10");
    assert_eq!(to_decimal(u64::MAX), "18446744073709551615");
    assert_eq!(to_two_digits(0), "00");
    assert_eq!(to_two_digits(7), "07");
    assert_eq!(to_two_digits(59), "59");
    assert_eq!(to_two_digits(123), "123");
}
