use system_monitor::text::{
    contains_str, parse_u64, replace_underscores, split_chars, str_eq, to_chars, trim,
};
use system_monitor::units::ByteUnit;

#[test]
fn parse_known_units() {
    assert_eq!(ByteUnit::parse("KB"), ByteUnit::Kilobyte);
    assert_eq!(ByteUnit::parse("MB"), ByteUnit::Megabyte);
    assert_eq!(ByteUnit::parse("GB"), ByteUnit::Gigabyte);
    assert_eq!(ByteUnit::parse("TB"), ByteUnit::Terabyte);
    assert_eq!(ByteUnit::parse("PB"), ByteUnit::Petabyte);
}

#[test]
fn parse_unknown_text_means_bytes() {
    assert_eq!(ByteUnit::parse("B"), ByteUnit::Byte);
    assert_eq!(ByteUnit::parse("kb"), ByteUnit::Byte);
    assert_eq!(ByteUnit::parse(""), ByteUnit::Byte);
    assert_eq!(ByteUnit::parse(" GB"), ByteUnit::Byte);
    assert_eq!(ByteUnit::parse("GiB"), ByteUnit::Byte);
    assert_eq!(ByteUnit::parse("XB"), ByteUnit::Byte);
}

#[test]
fn unit_sizes_are_powers_of_1024() {
    assert_eq!(ByteUnit::Byte.to_bytes(), 1);
    assert_eq!(ByteUnit::Kilobyte.to_bytes(), 1024);
    assert_eq!(ByteUnit::Megabyte.to_bytes(), 1_048_576);
    assert_eq!(ByteUnit::Gigabyte.to_bytes(), 1_073_741_824);
    assert_eq!(ByteUnit::Terabyte.to_bytes(), 1_099_511_627_776);
    assert_eq!(ByteUnit::Petabyte.to_bytes(), 1_125_899_906_842_624);
}

#[test]
fn labels_read_back_as_their_unit() {
    let all = [
        ByteUnit::Byte,
        ByteUnit::Kilobyte,
        ByteUnit::Megabyte,
        ByteUnit::Gigabyte,
        ByteUnit::Terabyte,
        ByteUnit::Petabyte,
    ];
    let labels = ["B", "KB", "MB", "GB", "TB", "PB"];
    for (u, l) in all.iter().zip(labels.iter()) {
        assert_eq!(u.label(), *l);
        assert_eq!(u.to_label_string(), l.to_string());
        assert_eq!(ByteUnit::parse(u.label()), *u);
    }
}

#[test]
fn string_equality_and_search() {
    assert!(str_eq("cpu_usage", "cpu_usage"));
    assert!(!str_eq("cpu_usage", "cpu_usag"));
    assert!(!str_eq("abc", "abd"));
    assert!(str_eq("", ""));
    assert!(contains_str("ram_total", "ram"));
    assert!(contains_str("the_ram", "ram"));
    assert!(!contains_str("disk_total", "ram"));
    assert!(contains_str("anything", ""));
    assert!(!contains_str("ra", "ram"));
}

#[test]
fn underscores_become_spaces() {
    assert_eq!(replace_underscores("network_received"), "network received");
    assert_eq!(replace_underscores("__a_"), "  a ");
    assert_eq!(replace_underscores("plain"), "plain");
    assert_eq!(replace_underscores("ü_ß"), "ü ß");
}

#[test]
fn trimming_removes_unicode_white_space() {
    assert_eq!(trim("  0x1002\n"), "0x1002");
    assert_eq!(trim("\t\r\n"), "");
    assert_eq!(trim(""), "");
    assert_eq!(trim("\u{3000}a b\u{a0}"), "a b");
    assert_eq!(trim("x"), "x");
    for s in ["  a ", "\u{2028}q\u{85}", " \u{200a} z\u{1680}"] {
        assert_eq!(trim(s), s.trim());
    }
}

#[test]
fn unsigned_parsing_matches_from_str() {
    let cases = [
        "0",
        "42",
        "+7",
        "007",
        "18446744073709551615",
        "18446744073709551616",
        "",
        "+",
        "-",
        "-1",
        " 1",
        "1 ",
        "1_000",
        "12a",
        "++1",
        "99999999999999999999999",
    ];
    for c in cases {
        assert_eq!(parse_u64(c), c.parse::<u64>().ok(), "case {:?}", c);
    }
    assert_eq!(parse_u64("18446744073709551615"), Some(u64::MAX));
    assert_eq!(parse_u64("+7"), Some(7));
    assert_eq!(parse_u64("-1"), None);
}

#[test]
fn splitting_keeps_empty_pieces() {
    let v = to_chars("a\t\tb\t");
    let pieces = split_chars(&v, '\t');
    let texts: Vec<String> = pieces.iter().map(|p| p.iter().collect()).collect();
    assert_eq!(texts, vec!["a", "", "b", ""]);
    let empty = split_chars(&Vec::new(), '\t');
    assert_eq!(empty.len(), 1);
    assert!(empty[0].is_empty());
}
