//! Decimal forms, credential extraction, field validation and the
//! configuration shapes.

use base64::Engine;
use track_api_challenge::config::{
    get_app_env_key, ApplicationSettings, Environment, JaegerSettings, Scheme,
};
use track_api_challenge::decimal::{parse_dec, u64_to_dec, DEC_LIMIT};
use track_api_challenge::errors::ErrorResponse;
use track_api_challenge::extract::{extract_basic, extract_bearer, ExtractError};
use track_api_challenge::validate::{Comment, Nickname, UserId};

#[test]
fn decimal_renders_and_parses_back() {
    for n in [0u64, 1, 9, 10, 42, 65_535, 1_700_000_000, DEC_LIMIT - 1] {
        let digits = u64_to_dec(n);
        assert_eq!(String::from_utf8(digits.clone()).unwrap(), n.to_string());
        assert_eq!(parse_dec(&digits), Some(n));
    }
}

#[test]
fn decimal_parser_accepts_only_canonical_forms() {
    assert_eq!(parse_dec(b"0"), Some(0));
    assert_eq!(parse_dec(b""), None);
    assert_eq!(parse_dec(b"01"), None);
    assert_eq!(parse_dec(b"1a2"), None);
    assert_eq!(parse_dec(b"9999999999999999999"), Some(DEC_LIMIT - 1));
    assert_eq!(parse_dec(b"10000000000000000000"), None);
}

#[test]
fn bearer_extraction_peels_the_scheme() {
    assert_eq!(
        extract_bearer(Some("Bearer abc.def.ghi")),
        Ok("abc.def.ghi".to_string())
    );
    assert_eq!(extract_bearer(None), Err(ExtractError::MissingCredential));
    assert_eq!(
        extract_bearer(Some("Basic abc")),
        Err(ExtractError::MissingCredential)
    );
    assert_eq!(
        extract_bearer(Some("bearer abc")),
        Err(ExtractError::MissingCredential)
    );
}

#[test]
fn basic_extraction_decodes_and_splits() {
    let encoded = base64::engine::general_purpose::STANDARD.encode("someuser:some:pass");
    let header = format!("Basic {encoded}");
    // The split happens at the first colon only.
    assert_eq!(
        extract_basic(Some(&header)),
        Ok(("someuser".to_string(), "some:pass".to_string()))
    );
}

#[test]
fn basic_extraction_reports_each_failure() {
    assert_eq!(extract_basic(None), Err(ExtractError::MissingCredential));
    assert_eq!(
        extract_basic(Some("Bearer abc")),
        Err(ExtractError::MissingCredential)
    );
    assert_eq!(
        extract_basic(Some("Basic ???")),
        Err(ExtractError::MalformedCredential)
    );
    let no_colon = base64::engine::general_purpose::STANDARD.encode("nocolonhere");
    assert_eq!(
        extract_basic(Some(&format!("Basic {no_colon}"))),
        Err(ExtractError::MalformedCredential)
    );
    let empty_secret = base64::engine::general_purpose::STANDARD.encode("someuser:");
    assert_eq!(
        extract_basic(Some(&format!("Basic {empty_secret}"))),
        Err(ExtractError::MissingSecret)
    );
}

#[test]
fn user_id_bounds_are_eight_to_nineteen_bytes() {
    assert!(UserId::try_from("12345678".to_string()).is_ok());
    assert!(UserId::try_from("1234567890123456789".to_string()).is_ok());
    assert!(UserId::try_from("1234567".to_string()).is_err());
    assert!(UserId::try_from("12345678901234567890".to_string()).is_err());
    let ok = UserId::try_from("TaroYamada".to_string()).unwrap();
    assert_eq!(ok.as_str(), "TaroYamada");
}

#[test]
fn nickname_and_comment_have_upper_bounds_only() {
    assert!(Nickname::try_from("".to_string()).is_ok());
    assert!(Nickname::try_from("a".repeat(19)).is_ok());
    assert!(Nickname::try_from("a".repeat(20)).is_err());
    assert!(Comment::try_from("".to_string()).is_ok());
    assert!(Comment::try_from("c".repeat(29)).is_ok());
    assert!(Comment::try_from("c".repeat(30)).is_err());
}

#[test]
fn environment_names_round_trip() {
    assert_eq!(Environment::try_from("dev"), Some(Environment::Dev));
    assert_eq!(Environment::try_from("test"), Some(Environment::Test));
    assert_eq!(Environment::try_from("prod"), Some(Environment::Prod));
    assert_eq!(Environment::try_from("staging"), None);
    assert_eq!(Environment::Dev.as_ref(), "dev");
    assert_eq!(Environment::Test.as_ref(), "test");
    assert_eq!(Environment::Prod.as_ref(), "prod");
    assert_eq!(Environment::default(), Environment::Prod);
}

#[test]
fn scheme_defaults_to_tls() {
    assert_eq!(Scheme::default(), Scheme::Https);
    assert_eq!(Scheme::Http.as_ref(), "http");
    assert_eq!(Scheme::Https.as_ref(), "https");
}

#[test]
fn jaeger_connection_string_is_one_url() {
    let settings = JaegerSettings::default();
    assert_eq!(settings.connection_string(), "https://localhost:4317");
    let custom = JaegerSettings {
        port: 80,
        host: "collector.example".to_string(),
        scheme: Scheme::Http,
    };
    assert_eq!(custom.connection_string(), "http://collector.example:80");
}

#[test]
fn application_settings_default_is_loopback() {
    let settings = ApplicationSettings::default();
    assert_eq!(settings.port, 80);
    assert_eq!(settings.host, "127.0.0.1");
    assert_eq!(settings.scheme, Scheme::Https);
    assert_eq!(settings.environment, Environment::Prod);
    assert_eq!(settings.domain, "");
}

#[test]
fn app_env_key_is_stable() {
    assert_eq!(get_app_env_key(), "TRACK__APPLICATION_ENVIRONMENT");
}

#[test]
fn default_error_response_exposes_nothing() {
    let body = ErrorResponse::default();
    assert_eq!(body.message, "An internal server error occurred");
    assert_eq!(body.cause, None);
}
