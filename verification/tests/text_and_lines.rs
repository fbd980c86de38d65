use rs_bar::bytes::{ascii_vec, bytes_find, LineAssembler};
use rs_bar::text::{
    chars_of, has_prefix, has_substring, has_suffix, parse_i64, parse_u32, parse_u64, push_dec,
    push_dec_padded, push_dec_zero_padded, split_lines, split_words, str_contains, str_ends_with,
    str_eq, str_starts_with, string_of, strip_prefix, trim_eq, trimmed, trimmed_start,
};

fn cv(s: &str) -> Vec<char> {
    s.chars().collect()
}

#[test]
fn chars_round_trip() {
    let v = chars_of("héllo wörld");
    assert_eq!(v, cv("héllo wörld"));
    assert_eq!(string_of(&v), "héllo wörld");
}

#[test]
fn prefix_suffix_substring() {
    assert!(has_prefix(&cv("cpu0"), &cv("cpu")));
    assert!(!has_prefix(&cv("cp"), &cv("cpu")));
    assert!(has_suffix(&cv("eth0.monitor"), &cv(".monitor")));
    assert!(!has_suffix(&cv("monitor"), &cv(".monitor")));
    assert!(has_substring(&cv("Stop Bluetooth"), &cv("Blue")));
    assert!(has_substring(&cv("abc"), &cv("")));
    assert!(!has_substring(&cv("abc"), &cv("abd")));
    assert_eq!(strip_prefix(&cv("cpu12"), &cv("cpu")), Some(cv("12")));
    assert_eq!(strip_prefix(&cv("gpu12"), &cv("cpu")), None);
}

#[test]
fn str_predicates_match_std() {
    for (s, p) in [("Powered: yes", "Powered"), ("", ""), ("abc", "abcd"), ("wg0", "wg")] {
        assert_eq!(str_starts_with(s, p), s.starts_with(p));
        assert_eq!(str_ends_with(s, p), s.ends_with(p));
        assert_eq!(str_contains(s, p), s.contains(p));
        assert_eq!(str_eq(s, p), s == p);
        assert_eq!(trim_eq(s, p), s.trim() == p);
    }
    assert!(trim_eq("  up\n", "up"));
}

#[test]
fn trim_and_split_match_std() {
    let samples = ["", "   ", "  a b  ", "\tone\ntwo\r\n", "x"];
    for s in samples {
        assert_eq!(trimmed(&cv(s)), cv(s.trim()));
        assert_eq!(trimmed_start(&cv(s)), cv(s.trim_start()));
        let words: Vec<Vec<char>> = s.split_whitespace().map(cv).collect();
        assert_eq!(split_words(&cv(s)), words);
        let lines: Vec<Vec<char>> = s.lines().map(cv).collect();
        assert_eq!(split_lines(&cv(s)), lines);
    }
}

#[test]
fn lines_drop_one_carriage_return_and_final_newline() {
    assert_eq!(split_lines(&cv("a\r\nb\n\nc\n")), vec![cv("a"), cv("b"), cv(""), cv("c")]);
}

#[test]
fn parse_numbers_like_from_str() {
    assert_eq!(parse_u64(&cv("18446744073709551615")), Some(u64::MAX));
    assert_eq!(parse_u64(&cv("18446744073709551616")), None);
    assert_eq!(parse_u64(&cv("+7")), Some(7));
    assert_eq!(parse_u64(&cv("")), None);
    assert_eq!(parse_u64(&cv("+")), None);
    assert_eq!(parse_u64(&cv("1 2")), None);
    assert_eq!(parse_u32(&cv("4294967295")), Some(u32::MAX));
    assert_eq!(parse_u32(&cv("4294967296")), None);
    assert_eq!(parse_i64(&cv("-45000")), Some(-45000));
    assert_eq!(parse_i64(&cv("-9223372036854775808")), Some(i64::MIN));
    assert_eq!(parse_i64(&cv("9223372036854775808")), None);
    assert_eq!(parse_i64(&cv("-")), None);
}

#[test]
fn parse_reads_back_what_push_dec_wrote() {
    for n in [0u64, 7, 10, 99, 12345, u64::MAX] {
        let mut s = String::new();
        push_dec(&mut s, n);
        assert_eq!(s, n.to_string());
        assert_eq!(parse_u64(&cv(&s)), Some(n));
    }
}

#[test]
fn padded_decimals_match_format() {
    for (n, w) in [(5u64, 2usize), (42, 2), (123, 2), (7, 0), (0, 3)] {
        let mut a = String::new();
        push_dec_padded(&mut a, n, w);
        assert_eq!(a, format!("{:>w$}", n, w = w));
        let mut b = String::new();
        push_dec_zero_padded(&mut b, n, w);
        assert_eq!(b, format!("{:0w$}", n, w = w));
    }
}

#[test]
fn byte_search() {
    assert_eq!(ascii_vec("Powered"), b"Powered".to_vec());
    assert!(bytes_find(&b"[CHG] Controller Powered: yes".to_vec(), &b"Powered: yes".to_vec()));
    assert!(!bytes_find(&b"Powered: ye".to_vec(), &b"Powered: yes".to_vec()));
    assert!(bytes_find(&b"x".to_vec(), &Vec::new()));
}

#[test]
fn line_assembler_splits_on_newlines() {
    let mut a = LineAssembler::new();
    assert!(a.feed(b"hel").is_empty());
    assert_eq!(a.feed(b"lo\nwor"), vec![b"hello".to_vec()]);
    assert_eq!(a.feed(b"ld\n\nx"), vec![b"world".to_vec(), Vec::new()]);
    assert!(a.feed(b"").is_empty());
    assert_eq!(a.feed(b"\n"), vec![b"x".to_vec()]);
}

#[test]
fn line_assembler_chunking_does_not_matter() {
    let data = b"[CHG] Controller Powered: yes\n[NEW] Device AA Connected: yes\npartial";
    let mut whole = LineAssembler::new();
    let all = whole.feed(data);
    for cut in 0..=data.len() {
        let mut a = LineAssembler::new();
        let mut got = a.feed(&data[..cut]);
        got.extend(a.feed(&data[cut..]));
        assert_eq!(got, all, "cut at {}", cut);
    }
    assert_eq!(all.len(), 2);
}
