use llama_tune::text;

#[test]
fn white_space_and_case_are_those_of_std() {
    for u in 0..=0x10FFFFu32 {
        if let Some(c) = char::from_u32(u) {
            assert_eq!(text::white_space(c), c.is_whitespace());
            assert_eq!(text::ascii_alnum(c), c.is_ascii_alphanumeric());
            assert_eq!(text::ascii_lower_char(c), c.to_ascii_lowercase());
        }
    }
}

#[test]
fn numbers_are_read_as_std_reads_them() {
    for s in [
        "", "0", "7", "+7", "+", "-7", "00012", "18446744073709551615", "18446744073709551616",
        "99999999999999999999999999", "1 2", " 1", "1_0", "0x10", "٣", "12a",
        "000000000000000000000000000000000001", "++1",
    ] {
        assert_eq!(text::parse_u64(s), s.parse::<u64>().ok(), "{}", s);
    }
}

#[test]
fn numbers_are_written_as_std_writes_them() {
    for n in [0u64, 9, 10, 99, 100, 1234567890, u64::MAX] {
        assert_eq!(text::decimal_string(n), n.to_string());
    }
    for i in [0i32, 5, -5, i32::MAX, i32::MIN] {
        assert_eq!(text::signed_decimal_string(i), i.to_string());
    }
    for n in [0u32, 9, 10, 255, 4096, 65535, 65536, u32::MAX] {
        assert_eq!(text::hex4_string(n), format!("{n:04X}"));
    }
}

#[test]
fn searching_and_trimming_are_those_of_std() {
    let samples = ["", " ", "a", "abcabc", "  a b\u{a0}\n", "ééx", "--", "a--b", "mmproj"];
    for s in samples {
        assert_eq!(text::trim(s), s.trim());
        assert_eq!(text::last_part(s, 'b'), s.rsplit('b').next().unwrap());
        assert_eq!(text::replace_char(s, 'a', "--"), s.replace('a', "--"));
        assert_eq!(text::contains_char(s, 'x'), s.contains('x'));
        for t in samples {
            assert_eq!(text::contains(s, t), s.contains(t));
            assert_eq!(text::starts_with(s, t), s.starts_with(t));
            assert_eq!(text::same_text(s, t), s == t);
            assert_eq!(text::comes_before(s, t), s < t);
            assert_eq!(text::same_ignoring_ascii_case(s, t), s.eq_ignore_ascii_case(t));
        }
    }
    assert!(text::same_ignoring_ascii_case("GguF", "gguf"));
    assert!(!text::same_ignoring_ascii_case("É", "é"));
}

#[test]
fn joining_is_that_of_std() {
    let parts: Vec<String> = ["a", "", "b"].iter().map(|s| s.to_string()).collect();
    assert_eq!(text::join(&parts, ", "), parts.join(", "));
    assert_eq!(text::join(&vec![], ", "), "");
    assert_eq!(text::join(&vec!["x".to_string()], ", "), "x");
}
