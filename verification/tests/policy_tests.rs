use std::time::Duration;
use vre_core::allow_list::{parse_allow_list, parse_piece};
use vre_core::policy::Policy;

#[test]
fn policy_allows_and_records() {
    let mut p = Policy::new(vec![1, 2, 42]);
    assert!(p.allows(42));
    assert!(!p.allows(3));
    p.record("granted cap 42".to_string());
    p.record("denied cap 3".to_string());
    let log = p.audit_log();
    assert_eq!(log.len(), 2);
    assert_eq!(log[0], "granted cap 42");
}

#[test]
fn grant_runs_until_its_expiry() {
    let mut p = Policy::new(vec![1]);
    p.grant_until(9, 100);
    assert!(p.allows_at(9, 99));
    assert!(!p.allows_at(9, 100));
    assert!(!p.allows_at(9, 101));
    assert!(p.allows_at(1, 101));
    assert!(!p.allows_at(2, 0));
    assert!(p.is_granted_by_ttl_at(9, 0));
    assert!(!p.is_granted_by_ttl_at(1, 0));
}

#[test]
fn grant_with_ttl_allows_now_and_is_recorded() {
    let mut p = Policy::new(Vec::new());
    assert!(!p.allows(5));
    p.grant_with_ttl(5, Duration::from_secs(3600));
    assert!(p.allows(5));
    assert!(p.is_granted_by_ttl(5));
    assert!(!p.is_granted_by_ttl(6));
    let log = p.audit_log();
    assert_eq!(log.len(), 1);
    assert_eq!(log[0], "granted cap 5 with ttl 3600s");
}

#[test]
fn grant_of_no_duration_allows_nothing() {
    let mut p = Policy::new(Vec::new());
    p.grant_with_ttl(5, Duration::from_secs(0));
    assert!(!p.allows(5));
}

#[test]
fn allow_list_text_is_read_piece_by_piece() {
    assert_eq!(parse_allow_list(b"1,2,42"), vec![1, 2, 42]);
    assert_eq!(parse_allow_list(b" 7 \r\n\t+8\n\n,255,256,-1,x,0x10, 009 ,"), vec![7, 8, 255, 9]);
    assert_eq!(parse_allow_list(b""), Vec::<u8>::new());
    assert_eq!(parse_allow_list(b"+"), Vec::<u8>::new());
    assert_eq!(parse_allow_list(b"1 2"), Vec::<u8>::new());
    assert_eq!(parse_allow_list(b"99999999999999999999999"), Vec::<u8>::new());
    assert_eq!(parse_allow_list(b"0"), vec![0]);
    assert_eq!(parse_piece(b"  12 ", 0, 5), Some(12));
    assert_eq!(parse_piece(b"  12 ", 0, 3), Some(1));
    assert_eq!(parse_piece(b"  12 ", 1, 1), None);
    for text in ["5", "+5", " 5", "05", "255", "256", "", "+", "++5", "5+", "-0", "2 5"] {
        let expected: Vec<u8> = text.trim().parse::<u8>().into_iter().collect();
        assert_eq!(parse_allow_list(text.as_bytes()), expected, "for {:?}", text);
    }
}

fn allow_list_by_chars(s: &str) -> Vec<u8> {
    let mut out = Vec::new();
    for part in s.split(|c| c == '\n' || c == ',' || c == '\r') {
        let t = part.trim();
        if t.is_empty() {
            continue;
        }
        if let Ok(n) = t.parse::<u8>() {
            out.push(n);
        }
    }
    out
}

#[test]
fn every_white_space_character_is_stripped() {
    let mut blanks = 0;
    let mut code = 0u32;
    while code <= 0x10FFFF {
        if let Some(c) = char::from_u32(code) {
            let text = format!("{}7{}{},{}8", c, c, c, c);
            assert_eq!(
                parse_allow_list(text.as_bytes()),
                allow_list_by_chars(&text),
                "for U+{:04X}",
                code
            );
            if c.is_whitespace() {
                blanks += 1;
                let inner = format!("1{}2", c);
                assert_eq!(parse_allow_list(inner.as_bytes()), allow_list_by_chars(&inner));
            }
        }
        code += if code < 0x4000 { 1 } else { 61 };
    }
    assert_eq!(blanks, 25);
    assert_eq!(parse_allow_list("\u{00A0}7".as_bytes()), vec![7]);
    assert_eq!(parse_allow_list("\u{3000}+12\u{2009}\u{0085}".as_bytes()), vec![12]);
    assert_eq!(parse_piece("\n7\r".as_bytes(), 0, 3), Some(7));
}

#[test]
fn random_allow_lists_are_read_as_by_chars() {
    let alphabet = [
        " ", "\t", "+", "-", "0", "1", "2", "5", "9", ",", "\n", "\r", "x", "\u{00A0}", "\u{2003}",
        "\u{3000}", "\u{0085}", "\u{00E9}", "\u{1680}", "\u{0B}",
    ];
    let mut state = 7u64;
    for _ in 0..20_000 {
        let mut text = String::new();
        state = state.wrapping_mul(6364136223846793005).wrapping_add(1442695040888963407);
        let len = (state >> 33) % 12;
        for _ in 0..len {
            state = state.wrapping_mul(6364136223846793005).wrapping_add(1442695040888963407);
            text.push_str(alphabet[((state >> 33) % 20) as usize]);
        }
        assert_eq!(parse_allow_list(text.as_bytes()), allow_list_by_chars(&text), "for {:?}", text);
    }
}

#[test]
fn grant_from_fixes_expiry_and_entry() {
    let mut p = Policy::new(vec![]);
    p.record("first".to_string());
    p.grant_from(9, 1_000, 500, "500ns");
    assert!(p.allows_at(9, 1_000));
    assert!(p.allows_at(9, 1_499));
    assert!(!p.allows_at(9, 1_500));
    assert!(!p.allows_at(9, 2_000));
    assert!(!p.allows_at(8, 1_000));
    assert_eq!(p.audit_log(), vec!["first".to_string(), "granted cap 9 with ttl 500ns".to_string()]);
    p.grant_from(255, u128::MAX - 1, 5, "5ns");
    assert!(p.allows_at(255, u128::MAX - 1));
    assert!(!p.allows_at(255, u128::MAX));
    assert_eq!(p.audit_log()[2], "granted cap 255 with ttl 5ns");
}

#[test]
fn grant_with_ttl_words_the_entry_like_format() {
    for (cap, dur) in [
        (0u8, Duration::from_millis(1500)),
        (7, Duration::from_nanos(1)),
        (42, Duration::from_secs(90)),
        (255, Duration::new(3, 250_000_000)),
    ] {
        let mut p = Policy::new(vec![]);
        p.grant_with_ttl(cap, dur);
        assert_eq!(p.audit_log(), vec![format!("granted cap {} with ttl {:?}", cap, dur)]);
    }
}
