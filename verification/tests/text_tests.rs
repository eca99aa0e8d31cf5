use error_report_web_rs::config::{Config, ConfigError, ConfigVars};
use error_report_web_rs::models::error_report::{ErrorQuery, SubmissionResponse};
use error_report_web_rs::models::timestamp::Timestamp;
use error_report_web_rs::utils::json::optional_json;
use error_report_web_rs::utils::ranking::sort_descending;
use error_report_web_rs::utils::text::{
    byte_len, copy_optional_text, i64_to_decimal, is_blank, parse_unsigned, text_order,
    u64_to_decimal, TextOrder,
};
use error_report_web_rs::utils::validation::{has_harmful_marker, ValidationError};

fn vars() -> ConfigVars {
    ConfigVars {
        database_url: Some("postgres://db/errors".to_string()),
        bind_address: None,
        port: None,
        base_url: Some("https://errors.example.org".to_string()),
        static_dir: None,
        template_dir: None,
        max_upload_size: None,
        bugzilla_url: None,
        email_host: None,
        email_port: None,
        email_username: None,
        email_password: None,
        email_from: Some("errors@example.org".to_string()),
    }
}

#[test]
fn decimal_writes_every_digit() {
    assert_eq!(u64_to_decimal(0), "0");
    assert_eq!(u64_to_decimal(7), "7");
    assert_eq!(u64_to_decimal(10), "10");
    assert_eq!(u64_to_decimal(1234567890), "1234567890");
    assert_eq!(u64_to_decimal(u64::MAX), "18446744073709551615");
    assert_eq!(i64_to_decimal(0), "0");
    assert_eq!(i64_to_decimal(-1), "-1");
    assert_eq!(i64_to_decimal(-908), "-908");
    assert_eq!(i64_to_decimal(i64::MIN), "-9223372036854775808");
    assert_eq!(i64_to_decimal(i64::MAX), "9223372036854775807");
}

#[test]
fn parse_unsigned_reads_what_the_standard_library_reads() {
    let cases = [
        "0", "8000", "65535", "65536", "+1", "+", "", "-1", "++1", "1+", " 1", "1 ", "007",
        "0000000000000000000000000000065535", "99999999999999999999999", "12a", "+0", "１２",
    ];
    for text in cases {
        assert_eq!(
            parse_unsigned(text, u16::MAX as u64),
            text.parse::<u16>().ok().map(|v| v as u64),
            "{:?}",
            text
        );
        assert_eq!(parse_unsigned(text, u64::MAX), text.parse::<u64>().ok(), "{:?}", text);
    }
    assert_eq!(parse_unsigned("18446744073709551615", u64::MAX), Some(u64::MAX));
    assert_eq!(parse_unsigned("18446744073709551616", u64::MAX), None);
    assert_eq!(parse_unsigned("5", 4), None);
    assert_eq!(parse_unsigned("4", 4), Some(4));
}

#[test]
fn text_order_is_the_order_of_str() {
    let texts = ["", "a", "ab", "b", "2023-11-14", "2023-11-15", "2023-12-01", "é", "z", "Z"];
    for a in texts {
        for b in texts {
            let expected = if a < b {
                TextOrder::Before
            } else if a == b {
                TextOrder::Same
            } else {
                TextOrder::After
            };
            assert_eq!(text_order(a, b), expected, "{:?} {:?}", a, b);
        }
    }
}

#[test]
fn blank_means_only_whitespace() {
    assert!(is_blank(""));
    assert!(is_blank(" \t\r\n"));
    assert!(is_blank("\u{3000}"));
    assert!(!is_blank(" a "));
    assert!(!is_blank("\u{200b}"));
}

#[test]
fn whitespace_is_the_white_space_property() {
    let listed: Vec<u32> = (0x0009..=0x000D)
        .chain([0x0020, 0x0085, 0x00A0, 0x1680])
        .chain(0x2000..=0x200A)
        .chain([0x2028, 0x2029, 0x202F, 0x205F, 0x3000])
        .collect();
    assert_eq!(listed.len(), 25);
    for code in 0..=0x10FFFFu32 {
        if let Some(c) = char::from_u32(code) {
            let expected = listed.contains(&code);
            assert_eq!(c.is_whitespace(), expected, "U+{:04X}", code);
            assert_eq!(is_blank(&c.to_string()), expected, "U+{:04X}", code);
        }
    }
}

#[test]
fn byte_len_counts_utf8_bytes() {
    assert_eq!(byte_len(""), 0);
    assert_eq!(byte_len("abc"), 3);
    assert_eq!(byte_len("é€😀"), 2 + 3 + 4);
}

#[test]
fn optional_text_is_copied() {
    assert_eq!(copy_optional_text(&None), None);
    assert_eq!(copy_optional_text(&Some("x".to_string())), Some("x".to_string()));
}

#[test]
fn markers_are_looked_for_in_lowercased_text() {
    assert!(has_harmful_marker("<script"));
    assert!(has_harmful_marker("a onerror=b"));
    assert!(!has_harmful_marker("<SCRIPT"));
    assert!(!has_harmful_marker("javascript"));
}

#[test]
fn json_strings_are_quoted_and_escaped() {
    assert_eq!(optional_json(&Some("plain".to_string())), Some("\"plain\"".to_string()));
    assert_eq!(
        optional_json(&Some("a\"b\\c\n".to_string())),
        Some("\"a\\\"b\\\\c\\n\"".to_string())
    );
    assert_eq!(optional_json(&None), Some("null".to_string()));
    assert_eq!(optional_json(&Some("x".to_string())), Some("\"x\"".to_string()));
}

#[test]
fn ranking_is_stable_and_descending() {
    assert_eq!(sort_descending(&vec![]), Vec::<usize>::new());
    assert_eq!(sort_descending(&vec![5]), vec![0]);
    assert_eq!(sort_descending(&vec![1, 2, 3]), vec![2, 1, 0]);
    assert_eq!(sort_descending(&vec![3, 2, 1]), vec![0, 1, 2]);
    assert_eq!(sort_descending(&vec![2, 7, 2, 7, -1, i128::MAX, i128::MIN]), vec![5, 1, 3, 0, 2, 4, 6]);
}

#[test]
fn messages_read_as_sentences() {
    assert_eq!(
        ValidationError::RequiredField { field: "machine".to_string() }.message(),
        "Field 'machine' is required"
    );
    assert_eq!(
        ValidationError::TooLong { field: "distro".to_string(), max: 100, actual: 200 }.message(),
        "Field 'distro' is too long (max: 100, actual: 200)"
    );
    assert_eq!(
        ValidationError::InvalidCharacters { field: "content".to_string() }.message(),
        "Field 'content' contains invalid characters"
    );
    assert_eq!(ValidationError::InvalidEmail.message(), "Invalid email format");
    assert_eq!(
        ConfigError::MissingEnvVar("BASE_URL").message(),
        "Missing required environment variable: BASE_URL"
    );
    assert_eq!(ConfigError::InvalidPort.message(), "Invalid port number");
    assert_eq!(ConfigError::InvalidEmailPort.message(), "Invalid email port number");
    assert_eq!(ConfigError::InvalidUploadSize.message(), "Invalid upload size");
}

#[test]
fn config_takes_defaults_for_what_is_not_set() {
    let config = Config::from_vars(&vars()).unwrap();
    assert_eq!(config.database_url, "postgres://db/errors");
    assert_eq!(config.bind_address, "127.0.0.1");
    assert_eq!(config.port, 8000);
    assert_eq!(config.base_url, "https://errors.example.org");
    assert_eq!(config.static_dir, "./static");
    assert_eq!(config.template_dir, "./templates");
    assert_eq!(config.max_upload_size, 10485760);
    assert_eq!(config.bugzilla_url, "https://bugzilla.yoctoproject.org");
    assert_eq!(config.email.host, "localhost");
    assert_eq!(config.email.port, 587);
    assert_eq!(config.email.username, None);
    assert_eq!(config.email.password, None);
    assert_eq!(config.email.from_address, "errors@example.org");
}

#[test]
fn config_takes_what_is_set() {
    let mut set = vars();
    set.bind_address = Some("0.0.0.0".to_string());
    set.port = Some("+9000".to_string());
    set.static_dir = Some("/srv/static".to_string());
    set.template_dir = Some("/srv/templates".to_string());
    set.max_upload_size = Some("1".to_string());
    set.bugzilla_url = Some("https://bugs.example.org".to_string());
    set.email_host = Some("mail".to_string());
    set.email_port = Some("25".to_string());
    set.email_username = Some("user".to_string());
    set.email_password = Some("p4ss".to_string());
    let config = Config::from_vars(&set).unwrap();
    assert_eq!(config.bind_address, "0.0.0.0");
    assert_eq!(config.port, 9000);
    assert_eq!(config.static_dir, "/srv/static");
    assert_eq!(config.template_dir, "/srv/templates");
    assert_eq!(config.max_upload_size, 1);
    assert_eq!(config.bugzilla_url, "https://bugs.example.org");
    assert_eq!(config.email.host, "mail");
    assert_eq!(config.email.port, 25);
    assert_eq!(config.email.username, Some("user".to_string()));
    assert_eq!(config.email.password, Some("p4ss".to_string()));
}

#[test]
fn config_reports_the_first_problem() {
    let mut set = vars();
    set.database_url = None;
    set.port = Some("x".to_string());
    assert_eq!(Config::from_vars(&set), Err(ConfigError::MissingEnvVar("DATABASE_URL")));
    let mut set = vars();
    set.port = Some("65536".to_string());
    set.base_url = None;
    assert_eq!(Config::from_vars(&set), Err(ConfigError::InvalidPort));
    let mut set = vars();
    set.base_url = None;
    set.max_upload_size = Some("".to_string());
    assert_eq!(Config::from_vars(&set), Err(ConfigError::MissingEnvVar("BASE_URL")));
    let mut set = vars();
    set.max_upload_size = Some("ten".to_string());
    set.email_port = Some("-1".to_string());
    assert_eq!(Config::from_vars(&set), Err(ConfigError::InvalidUploadSize));
    let mut set = vars();
    set.email_port = Some("".to_string());
    set.email_from = None;
    assert_eq!(Config::from_vars(&set), Err(ConfigError::InvalidEmailPort));
    let mut set = vars();
    set.email_from = None;
    assert_eq!(Config::from_vars(&set), Err(ConfigError::MissingEnvVar("EMAIL_FROM")));
}

#[test]
fn default_query_is_the_first_page_of_fifty() {
    let query = ErrorQuery::default();
    assert_eq!(query.page, Some(1));
    assert_eq!(query.per_page, Some(50));
    assert_eq!(query.machine, None);
    assert_eq!(query.distro, None);
    assert_eq!(query.distro_version, None);
    assert_eq!(query.error_type, None);
    assert_eq!(query.failure_package, None);
    assert_eq!(query.date_from, None);
    assert_eq!(query.date_to, None);
    assert_eq!(query.search, None);
}

#[test]
fn response_names_the_page_of_the_report() {
    let response = SubmissionResponse::success("https://errors.example.org", 42);
    assert_eq!(response.id, 42);
    assert_eq!(response.url, "https://errors.example.org/Errors/Details/42/");
    assert_eq!(response.status, "success");
    assert_eq!(SubmissionResponse::success("", -7).url, "/Errors/Details/-7/");
}

#[test]
fn timestamps_cover_what_chrono_covers() {
    let t = Timestamp::new(1_700_000_000, 123).unwrap();
    assert_eq!(t.secs(), 1_700_000_000);
    assert_eq!(t.nanos(), 123);
    assert_eq!(t.key(), 1_700_000_000i128 * (1i128 << 32) + 123);
    assert_eq!(t.date_text(), "2023-11-14");
    assert_eq!(Timestamp::new(-1, 0).unwrap().date_text(), "1969-12-31");
    assert_eq!(Timestamp::new(0, 0).unwrap().date_text(), "1970-01-01");
    assert_eq!(Timestamp::new(86_399, 999_999_999).unwrap().date_text(), "1970-01-01");
    assert_eq!(Timestamp::new(86_400, 0).unwrap().date_text(), "1970-01-02");
    assert_eq!(Timestamp::new(0, 2_000_000_000), None);
    assert_eq!(Timestamp::new(0, 1_000_000_000), None);
    assert!(Timestamp::new(59, 1_000_000_000).is_some());
    assert_eq!(Timestamp::new(i64::MAX, 0), None);
    assert_eq!(Timestamp::new(i64::MIN, 0), None);
    assert!(Timestamp::new(-1, 0).unwrap().key() < Timestamp::new(0, 0).unwrap().key());
    assert!(Timestamp::new(-1, u32::MAX / 4).unwrap().key() < Timestamp::new(0, 0).unwrap().key());
}

#[test]
fn timestamps_are_parsed_from_rfc3339() {
    assert_eq!(
        Timestamp::parse_rfc3339("2023-11-14T22:13:20Z"),
        Timestamp::new(1_700_000_000, 0)
    );
    assert_eq!(
        Timestamp::parse_rfc3339("2023-11-14T22:13:20.5-08:00"),
        Timestamp::new(1_700_000_000 + 8 * 3_600, 500_000_000)
    );
    assert_eq!(Timestamp::parse_rfc3339("2023-11-14"), None);
    assert_eq!(Timestamp::parse_rfc3339(""), None);
    assert_eq!(Timestamp::from_parts(None), None);
    assert_eq!(Timestamp::from_parts(Some((5, 6))), Timestamp::new(5, 6));
    assert_eq!(Timestamp::from_parts(Some((5, u32::MAX))), None);
}

#[test]
fn clock_gives_a_present_instant() {
    let now = Timestamp::now();
    assert!(now.secs() > 1_700_000_000);
    assert!(now.nanos() < 1_000_000_000);
    assert_eq!(Timestamp::new(now.secs(), now.nanos()), Some(now));
}
