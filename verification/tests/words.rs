//! Text, numbers, letters, the clock, Base64, settings.

use diesellynk::auth::org_key_of;
use diesellynk::base64::base64_decode;
use diesellynk::clock::{
    generate_session_id, generate_token, now, now_secs, now_string, session_id_at, token_at, Moment,
};
use diesellynk::config::{database_path, get_admin_credentials, get_port, or_default};
use diesellynk::numerals::{parse_u16, to_decimal, to_hex_lower, to_hex_upper};
use diesellynk::text::{
    chars_of, contains, find, is_white_space, same, split, starts_with, string_of, text_after,
    text_before, trim, trim_end_matches, trim_start_matches,
};

#[test]
fn texts_are_compared_by_their_characters() {
    assert!(same("", ""));
    assert!(same("Köln", "Köln"));
    assert!(!same("Köln", "Koln"));
    assert!(!same("ab", "abc"));
    assert!(!same("abc", "abd"));
}

#[test]
fn text_is_taken_apart_and_put_together() {
    let v = chars_of("aß€😀");
    assert_eq!(v, vec!['a', 'ß', '€', '😀']);
    assert_eq!(string_of(&v), "aß€😀");
    assert_eq!(string_of(&[]), "");
}

#[test]
fn white_space_is_what_unicode_says() {
    for n in 0u32..0x11_0000 {
        if let Some(c) = char::from_u32(n) {
            assert_eq!(is_white_space(c), c.is_whitespace(), "{:x}", n);
        }
    }
}

#[test]
fn trimming_takes_white_space_off_both_ends() {
    for s in ["", " ", " a ", "a b", "\t\u{a0}x y\u{3000}\n", "\u{200b}z", "nothing"] {
        assert_eq!(trim(s), s.trim());
    }
    assert_eq!(trim("  two words \r\n"), "two words");
}

#[test]
fn searching_finds_the_first_place() {
    let s = chars_of("abcabc");
    assert_eq!(find(&s, &chars_of("bc")), Some(1));
    assert_eq!(find(&s, &chars_of("cb")), None);
    assert_eq!(find(&s, &[]), Some(0));
    assert_eq!(find(&[], &[]), Some(0));
    assert_eq!(find(&[], &chars_of("a")), None);
    assert!(contains("UNIQUE constraint failed: orgs.org_id", "UNIQUE"));
    assert!(!contains("disk full", "UNIQUE"));
    assert!(starts_with("https://x", "https://"));
    assert!(!starts_with("http://x", "https://"));
}

#[test]
fn text_is_cut_at_separators() {
    assert_eq!(text_before("a:b:c", ":"), "a");
    assert_eq!(text_before("abc", ":"), "abc");
    assert_eq!(text_after("a:b:c", ":"), Some("b:c".to_string()));
    assert_eq!(text_after("abc", ":"), None);
    assert_eq!(text_after("a:", ":"), Some(String::new()));
    assert_eq!(split("a,,b,", ','), vec!["a", "", "b", ""]);
    assert_eq!(split("", ','), vec![""]);
    assert_eq!(split("only", ','), vec!["only"]);
}

#[test]
fn repeated_prefixes_and_suffixes_go() {
    assert_eq!(trim_start_matches("https://https://h/p", "https://"), "h/p");
    assert_eq!(trim_start_matches("h", "https://"), "h");
    assert_eq!(trim_end_matches("http://g///", '/'), "http://g");
    assert_eq!(trim_end_matches("///", '/'), "");
}

#[test]
fn numbers_are_written_in_digits() {
    assert_eq!(to_decimal(0), "0");
    assert_eq!(to_decimal(u64::MAX), "18446744073709551615");
    assert_eq!(to_hex_lower(0xDEADBEEF), "deadbeef");
    assert_eq!(to_hex_upper(0x18C_F00D), "18CF00D");
    assert_eq!(to_hex_lower(u128::MAX), "ffffffffffffffffffffffffffffffff");
    assert_eq!(to_hex_upper(0), "0");
    assert_eq!(to_hex_lower(16), "10");
}

#[test]
fn ports_are_read_like_std_reads_them() {
    for s in [
        "0", "80", "+80", "65535", "65536", "99999999999999999999", "", "+", "-1", "8o", " 80", "007",
        "++1", "1+", "٣",
    ] {
        assert_eq!(parse_u16(s), s.parse::<u16>().ok(), "{:?}", s);
    }
}

#[test]
fn every_port_reads_back_from_its_numeral() {
    for n in [0u16, 9, 10, 443, 8080, 65535] {
        assert_eq!(parse_u16(&to_decimal(n as u64)), Some(n));
    }
}

#[test]
fn tokens_are_mixed_nanoseconds() {
    assert_eq!(token_at(0), "deadbeefcafebabe");
    assert_eq!(token_at(0xDEADBEEFCAFEBABE), "0");
    assert_eq!(token_at(1_700_000_000_000_000_000), "c93a2211fcd4babe");
    assert_ne!(token_at(1), token_at(2));
}

#[test]
fn session_ids_are_milliseconds_in_capitals() {
    assert_eq!(session_id_at(0), "DL-0");
    assert_eq!(session_id_at(1_700_000_000_000), "DL-18BCFE56800");
    assert_ne!(session_id_at(1), session_id_at(2));
}

#[test]
fn a_reading_is_turned_into_finer_units() {
    let m = Moment { secs: 3, nanos: 4_567_890 };
    assert_eq!(m.as_nanos(), 3_004_567_890);
    assert_eq!(m.as_millis(), 3_004);
}

#[test]
fn the_clock_is_read() {
    let epoch = std::time::UNIX_EPOCH;
    let earlier = std::time::SystemTime::now().duration_since(epoch).unwrap();
    let m = now();
    let later = std::time::SystemTime::now().duration_since(epoch).unwrap();
    assert!(m.nanos < 1_000_000_000);
    assert!(earlier.as_nanos() <= m.as_nanos() && m.as_nanos() <= later.as_nanos());
    assert!(now_secs() >= earlier.as_secs());
    let written: u64 = now_string().parse().unwrap();
    assert!(written >= earlier.as_secs());
    let token = u128::from_str_radix(&generate_token(), 16).unwrap() ^ 0xDEADBEEFCAFEBABE;
    assert!(token >= earlier.as_nanos());
    let id = generate_session_id();
    let millis = u128::from_str_radix(&id[3..], 16).unwrap();
    assert!(id.starts_with("DL-") && millis >= earlier.as_millis());
}

#[test]
fn base64_is_decoded() {
    assert_eq!(base64_decode("MQBjAHBvc3RncmVzcWw="), Ok("1\0c\0postgresql".to_string()));
    assert_eq!(base64_decode("aGk="), Ok("hi".to_string()));
    assert_eq!(base64_decode("aA=="), Ok("h".to_string()));
    assert_eq!(base64_decode("YWJj"), Ok("abc".to_string()));
    assert_eq!(base64_decode(""), Ok(String::new()));
    assert_eq!(base64_decode("w6Q="), Ok("ä".to_string()));
}

#[test]
fn base64_is_read_leniently() {
    assert_eq!(base64_decode("aG=k=="), Ok("hi".to_string()));
    assert_eq!(base64_decode("aGk"), Ok("hi".to_string()));
    assert_eq!(base64_decode("a"), Ok("h".to_string()));
    assert_eq!(base64_decode("!!!!"), Ok("\0\0\0".to_string()));
    assert_eq!(base64_decode("Pz8/"), Ok("???".to_string()));
    assert_eq!(base64_decode("fn5+"), Ok("~~~".to_string()));
}

#[test]
fn base64_of_something_else_than_text_is_refused() {
    assert_eq!(base64_decode("/w=="), Err(()));
    assert_eq!(base64_decode("w6Qw6Q=="), Err(()));
}

#[test]
fn padding_at_the_end_changes_nothing() {
    for s in ["aGk=", "aA==", "YWJj", ""] {
        assert_eq!(base64_decode(&format!("{}======", s)), base64_decode(s));
    }
}

#[test]
fn organisation_ids_are_trimmed_and_made_small() {
    assert_eq!(org_key_of("  Demo_FLEET "), "demo_fleet");
    assert_eq!(org_key_of("ÄRGER"), "ärger");
    assert_eq!(org_key_of("   "), "");
}

#[test]
fn missing_settings_have_defaults() {
    assert_eq!(get_port(None), 8080);
    assert_eq!(get_port(Some("3000")), 3000);
    assert_eq!(get_port(Some("none")), 8080);
    assert_eq!(get_port(Some("70000")), 8080);
    assert_eq!(or_default(Some(String::new()), "x"), "");
    assert_eq!(or_default(None, "x"), "x");
    assert_eq!(
        get_admin_credentials(None, None),
        ("admin".to_string(), "DL-Admin-2025!".to_string())
    );
    assert_eq!(
        get_admin_credentials(Some("root".to_string()), Some("pw".to_string())),
        ("root".to_string(), "pw".to_string())
    );
    assert_eq!(database_path(None, true), "/app/diesellynk.db");
    assert_eq!(database_path(None, false), "/tmp/diesellynk.db");
    assert_eq!(database_path(Some("/data/x.db".to_string()), true), "/data/x.db");
}
