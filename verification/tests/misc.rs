use orc_core::admin::admin_token_accepted;
use orc_core::clock::now_ms;
use orc_core::config::{default_listen_port, validate_config, DaemonConfig};
use orc_core::error::{InputError, OrcError};
use orc_core::geo::{is_private_ip, IpAddress};
use orc_core::ids::validate_torrent_id;
use orc_core::model::{overlay_status, version, wallet_status};
use orc_core::redact::{replace_all, sanitize_message, Redaction};
use orc_core::text::{is_blank, str_eq, trim_chars};

fn redactions() -> Vec<Redaction> {
    vec![
        Redaction { needle: "/home/user".to_string(), tag: "[HOME]".to_string() },
        Redaction { needle: String::new(), tag: "[APPDATA]".to_string() },
        Redaction { needle: "C:\\Users\\u".to_string(), tag: "[USERPROFILE]".to_string() },
    ]
}

#[test]
fn fixed_answers() {
    assert_eq!(version().version, "0.1.0");
    let w = wallet_status();
    assert_eq!(w.allowance_bytes_remaining, 53_687_091_200);
    assert_eq!(w.balance_credits, 1000);
    let o = overlay_status();
    assert!(!o.enabled);
    assert!(o.circuits.is_empty());
}

#[test]
fn clock_shows_the_time_since_the_epoch() {
    let a = now_ms();
    let b = now_ms();
    assert!(a > 1_600_000_000_000);
    assert!(b >= a);
    assert!(b - a < 60_000);
}

#[test]
fn listen_port_has_a_default_and_a_range() {
    assert_eq!(default_listen_port(), 49000);
    assert_eq!(DaemonConfig::default().listen_port, 49000);
    assert_eq!(validate_config(&DaemonConfig { listen_port: 1024 }), Ok(()));
    assert_eq!(validate_config(&DaemonConfig { listen_port: 65535 }), Ok(()));
    assert_eq!(validate_config(&DaemonConfig::default()), Ok(()));
    assert_eq!(
        validate_config(&DaemonConfig { listen_port: 1023 }),
        Err(OrcError::InvalidInput(InputError::InvalidPort))
    );
    assert_eq!(
        validate_config(&DaemonConfig { listen_port: 0 }),
        Err(OrcError::InvalidInput(InputError::InvalidPort))
    );
}

#[test]
fn ids_are_recognised_by_their_shape() {
    assert!(validate_torrent_id("123e4567-e89b-12d3-a456-426614174000"));
    assert!(validate_torrent_id("123E4567-E89B-12D3-A456-426614174ABC"));
    assert!(validate_torrent_id("123e4567e89b12d3a456426614174000"));
    assert!(!validate_torrent_id("123e4567-e89b-12d3-a456-42661417400"));
    assert!(!validate_torrent_id("123e4567-e89b-12d3-a456-4266141740000"));
    assert!(!validate_torrent_id("123e4567-e89b-12d3-a456_426614174000"));
    assert!(!validate_torrent_id("123e4567-e89b-12d3-a4567426614174000"));
    assert!(!validate_torrent_id("123e4567-e89b-12d3-a456-42661417400g"));
    assert!(!validate_torrent_id("123e4567e89b12d3a45642661417400-"));
    assert!(!validate_torrent_id("123e4567e89b-12d3-a456-4266-14174000"));
    assert!(!validate_torrent_id(""));
    assert!(!validate_torrent_id("../../etc/passwd"));
}

#[test]
fn admin_token_must_match() {
    assert!(admin_token_accepted("", ""));
    assert!(admin_token_accepted("", "anything"));
    assert!(admin_token_accepted("s3cret-token", "s3cret-token"));
    assert!(!admin_token_accepted("s3cret-token", "s3cret-tokeN"));
    assert!(!admin_token_accepted("s3cret-token", "s3cret-toke"));
    assert!(!admin_token_accepted("s3cret-token", "s3cret-token "));
    assert!(!admin_token_accepted("s3cret-token", ""));
    assert!(admin_token_accepted("t\u{f6}ken", "t\u{f6}ken"));
}

#[test]
fn addresses_that_never_get_a_country() {
    let v4 = |a, b, c, d| IpAddress::V4 { a, b, c, d };
    assert!(is_private_ip(&v4(10, 1, 2, 3)));
    assert!(is_private_ip(&v4(172, 16, 0, 1)));
    assert!(is_private_ip(&v4(172, 31, 255, 255)));
    assert!(!is_private_ip(&v4(172, 15, 0, 1)));
    assert!(!is_private_ip(&v4(172, 32, 0, 1)));
    assert!(is_private_ip(&v4(192, 168, 1, 1)));
    assert!(!is_private_ip(&v4(192, 169, 1, 1)));
    assert!(is_private_ip(&v4(127, 0, 0, 1)));
    assert!(is_private_ip(&v4(169, 254, 10, 10)));
    assert!(is_private_ip(&v4(255, 255, 255, 255)));
    assert!(!is_private_ip(&v4(255, 255, 255, 254)));
    assert!(!is_private_ip(&v4(8, 8, 8, 8)));
    assert!(is_private_ip(&v4(224, 0, 0, 1)));
    assert!(is_private_ip(&v4(239, 255, 255, 255)));
    assert!(!is_private_ip(&v4(223, 255, 255, 255)));
    assert!(!is_private_ip(&v4(240, 0, 0, 1)));
    assert!(is_private_ip(&IpAddress::V6 { segments: [0, 0, 0, 0, 0, 0, 0, 1] }));
    assert!(!is_private_ip(&IpAddress::V6 { segments: [0, 0, 0, 0, 0, 0, 0, 2] }));
    assert!(is_private_ip(&IpAddress::V6 { segments: [0xff02, 0, 0, 0, 0, 0, 0, 1] }));
    assert!(is_private_ip(&IpAddress::V6 { segments: [0xfe80, 0, 0, 0, 0, 0, 0, 1] }));
    assert!(is_private_ip(&IpAddress::V6 { segments: [0xfebf, 0, 0, 0, 0, 0, 0, 1] }));
    assert!(!is_private_ip(&IpAddress::V6 { segments: [0xfec0, 0, 0, 0, 0, 0, 0, 1] }));
    assert!(is_private_ip(&IpAddress::V6 { segments: [0xfc00, 0, 0, 0, 0, 0, 0, 1] }));
    assert!(is_private_ip(&IpAddress::V6 { segments: [0xfd12, 0x3456, 0, 0, 0, 0, 0, 1] }));
    assert!(!is_private_ip(&IpAddress::V6 { segments: [0xfbff, 0, 0, 0, 0, 0, 0, 1] }));
    assert!(!is_private_ip(&IpAddress::V6 { segments: [0xfe00, 0, 0, 0, 0, 0, 0, 1] }));
    assert!(!is_private_ip(&IpAddress::V6 { segments: [0x2001, 0xdb8, 0, 0, 0, 0, 0, 1] }));
}

#[test]
fn message_is_cut_to_one_line() {
    assert_eq!(sanitize_message("first\nsecond\nthird", &vec![]), "first");
    assert_eq!(sanitize_message("first\r\nsecond", &vec![]), "first");
    assert_eq!(sanitize_message("\nsecond", &vec![]), "");
    assert_eq!(sanitize_message("", &vec![]), "");
    assert_eq!(sanitize_message("only", &vec![]), "only");
}

#[test]
fn user_directories_are_redacted() {
    assert_eq!(
        sanitize_message("cannot open /home/user/x and /home/user/y\n/home/user", &redactions()),
        "cannot open [HOME]/x and [HOME]/y"
    );
    assert_eq!(
        sanitize_message("at C:\\Users\\u\\file", &redactions()),
        "at [USERPROFILE]\\file"
    );
    assert_eq!(sanitize_message("nothing to hide", &redactions()), "nothing to hide");
}

#[test]
fn occurrences_are_replaced_from_left_to_right() {
    let chars = |s: &str| s.chars().collect::<Vec<char>>();
    assert_eq!(replace_all(&chars("aaaa"), &chars("aa"), &chars("b")), chars("bb"));
    assert_eq!(replace_all(&chars("aaa"), &chars("aa"), &chars("b")), chars("ba"));
    assert_eq!(replace_all(&chars("abc"), &chars("abcd"), &chars("x")), chars("abc"));
    assert_eq!(replace_all(&chars("xabx"), &chars("ab"), &chars("")), chars("xx"));
    assert_eq!(replace_all(&chars(""), &chars("a"), &chars("b")), chars(""));
    assert_eq!(replace_all(&chars("abc"), &chars(""), &chars("x")), chars("abc"));
}

#[test]
fn sensitive_messages_are_replaced() {
    assert_eq!(sanitize_message("bad Token abc", &vec![]), "An error occurred");
    assert_eq!(sanitize_message("the SECRET is out", &vec![]), "An error occurred");
    assert_eq!(sanitize_message("harmless\nsecret", &vec![]), "harmless");
}

#[test]
fn long_messages_are_cut() {
    let long = "m".repeat(250);
    assert_eq!(sanitize_message(&long, &vec![]), format!("{}...", "m".repeat(200)));
    let exact = "m".repeat(200);
    assert_eq!(sanitize_message(&exact, &vec![]), exact);
    let wide = "\u{e9}".repeat(201);
    assert_eq!(sanitize_message(&wide, &vec![]), format!("{}...", "\u{e9}".repeat(200)));
}

#[test]
fn errors_are_put_in_words() {
    assert_eq!(OrcError::NotFound.message(), "Not found");
    assert_eq!(OrcError::CapacityExceeded.message(), "Maximum number of torrents (10000) reached");
    assert_eq!(OrcError::InvalidInput(InputError::MagnetTooLong).message(), "Magnet link too long");
    assert_eq!(
        OrcError::DecodeFailure(orc_core::bencode::BencodeError::UnterminatedList).message(),
        "unterminated list"
    );
    assert_eq!(OrcError::EngineFailure.message(), "rqbit did not return a torrent id");
    assert!(OrcError::PolicyRejected.message().starts_with("Network blocked"));
    assert_eq!(InputError::SavePathEmpty.message(), "save_path cannot be empty");
}

#[test]
fn text_helpers() {
    assert!(is_blank(""));
    assert!(is_blank(" \t\r\n\u{a0}\u{3000}"));
    assert!(!is_blank(" x "));
    assert!(!is_blank("\u{200b}"));
    assert!(str_eq("abc", "abc"));
    assert!(!str_eq("abc", "abd"));
    assert!(!str_eq("abc", "ab"));
    let trimmed = trim_chars(&" \t a b \n".chars().collect());
    assert_eq!(trimmed, vec!['a', ' ', 'b']);
    assert!(trim_chars(&"   ".chars().collect()).is_empty());
}
