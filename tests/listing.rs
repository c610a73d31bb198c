use git_interactive_signing_key::config::{config_args, configured_key, use_global_scope};
use git_interactive_signing_key::listing::{parse_key_listing, trim_text};

const LISTING: &str = "/home/u/.gnupg/pubring.kbx\n\
------------------------\n\
sec   rsa4096/ABCD1234EFGH5678 2023-01-01 [SC]\n\
      0123456789ABCDEF0123ABCD1234EFGH5678\n\
uid                 [ultimate] John Doe <john@example.com>\n\
ssb   rsa4096/1111222233334444 2023-01-01 [E]\n\
\n\
sec   ed25519/9999AAAABBBBCCCC 2024-02-02 [SC]\n\
      FFFF9999AAAABBBBCCCC\n\
uid                 [ unknown] Jane Roe <jane@example.org>\n\
uid                 [ unknown] Jane Roe <jane@work.example>\n";

#[test]
fn parses_two_keys_with_first_uid_each() {
    let keys = parse_key_listing(LISTING);
    assert_eq!(keys.len(), 2);
    assert_eq!(keys[0].identifier, "ABCD1234EFGH5678");
    assert_eq!(keys[0].label, "John Doe <john@example.com>");
    assert_eq!(keys[1].identifier, "9999AAAABBBBCCCC");
    assert_eq!(keys[1].label, "Jane Roe <jane@example.org>");
}

#[test]
fn parses_crlf_lines() {
    let keys = parse_key_listing("sec   rsa2048/0011223344556677 2020-01-01 [SC]\r\nuid   [full] Ann\r\n");
    assert_eq!(keys.len(), 1);
    assert_eq!(keys[0].identifier, "0011223344556677");
    assert_eq!(keys[0].label, "Ann");
}

#[test]
fn empty_listing_gives_no_keys() {
    assert!(parse_key_listing("").is_empty());
    assert!(parse_key_listing("\n\n").is_empty());
}

#[test]
fn uid_without_key_is_skipped() {
    let keys = parse_key_listing("uid   [ultimate] Nobody\nsec   rsa4096/AAAA 2023\n");
    assert!(keys.is_empty());
}

#[test]
fn sec_without_slash_keeps_no_key() {
    let keys = parse_key_listing("sec   rsa4096 2023\nuid   [ultimate] Nobody\n");
    assert!(keys.is_empty());
}

#[test]
fn empty_key_id_is_not_a_key() {
    assert!(parse_key_listing("sec x/ uid[").is_empty());
    let keys = parse_key_listing("sec   rsa4096/ 2023\nuid   [ultimate] Nobody\n");
    assert!(keys.is_empty());
}

#[test]
fn empty_key_id_keeps_earlier_pending_key() {
    let keys = parse_key_listing("sec   rsa4096/CAFE 2023\nsec   rsa4096/ 2023\nuid   [full] Someone\n");
    assert_eq!(keys.len(), 1);
    assert_eq!(keys[0].identifier, "CAFE");
    assert_eq!(keys[0].label, "Someone");
}

#[test]
fn uid_without_closing_bracket_has_empty_label() {
    let keys = parse_key_listing("sec   rsa4096/BEEF 2023\nuid   [ultimate Nobody");
    assert_eq!(keys.len(), 1);
    assert_eq!(keys[0].identifier, "BEEF");
    assert_eq!(keys[0].label, "");
}

#[test]
fn trims_white_space() {
    assert_eq!(trim_text("  ABCD\n"), "ABCD");
    assert_eq!(trim_text("\u{3000}x y\t"), "x y");
    assert_eq!(trim_text(" \n "), "");
    assert_eq!(trim_text(""), "");
}

#[test]
fn configured_key_from_output() {
    assert_eq!(configured_key("ABCD1234\n", true), Some("ABCD1234".to_string()));
    assert_eq!(configured_key("ABCD1234\n", false), None);
}

#[test]
fn scope_flags() {
    assert!(!use_global_scope(false, false));
    assert!(use_global_scope(true, false));
    assert!(!use_global_scope(true, true));
    assert!(!use_global_scope(false, true));
}

#[test]
fn git_config_arguments() {
    assert_eq!(config_args(false, None), vec!["config", "user.signingkey"]);
    assert_eq!(config_args(true, None), vec!["config", "--global", "user.signingkey"]);
    assert_eq!(config_args(true, Some("ABCD")), vec!["config", "--global", "user.signingkey", "ABCD"]);
    assert_eq!(config_args(false, Some("ABCD")), vec!["config", "user.signingkey", "ABCD"]);
}
