//! The whole pipeline over the in-memory store: signup, sign-in,
//! authentication by header, authorization, partial update and deletion.

use base64::Engine;
use track_api_challenge::actions::{
    authenticate_basic, authenticate_bearer, authorize, delete, get_one, get_one_by_str_id,
    signin, signup, AuthzDecision, BasicId, DeleteError, GetOneError, Signin,
};
use track_api_challenge::errors::{
    auth_error_response, signup_error_response, update_error_response, AuthError, ErrorCategory,
    SignupError, UpdateError,
};
use track_api_challenge::actions::update_user;
use track_api_challenge::store::UserStore;
use track_api_challenge::token::TokenError;
use track_api_challenge::validate::{Signup, UpdateUserDto};
use track_api_challenge::Principal;

const SECRET: &[u8] = b"pipeline-signing-secret";

fn payload(user_id: &str, password: &str) -> Signup {
    Signup {
        user_id: Some(user_id.to_string()),
        password: Some(password.to_string()),
    }
}

fn seeded_store() -> UserStore {
    let mut store = UserStore::new();
    signup(&mut store, payload("TaroYamada", "PaSSwd4TY")).expect("seed signup");
    store
}

fn basic_header(user_id: &str, password: &str) -> String {
    let encoded =
        base64::engine::general_purpose::STANDARD.encode(format!("{user_id}:{password}"));
    format!("Basic {encoded}")
}

#[test]
fn can_create_an_account() {
    let mut store = UserStore::new();
    let resp = signup(&mut store, payload("TaroYamada", "PaSSwd4TY")).expect("signup");
    assert_eq!(resp.user_id, "TaroYamada");
    assert_eq!(resp.nickname, "TaroYamada");
    assert_eq!(store.len(), 1);
}

#[test]
fn signup_stores_a_hash_not_the_password() {
    let mut store = seeded_store();
    let user = delete(&mut store, &BasicId::new("TaroYamada".to_string())).expect("delete");
    assert_ne!(user.password, "PaSSwd4TY");
    assert!(user.password.starts_with("$argon2"));
    // The subject key is a hyphenated UUID: 36 ASCII characters.
    assert_eq!(user.id.len(), 36);
    assert!(user.id.bytes().all(|b| b == b'-' || b.is_ascii_hexdigit()));
}

#[test]
fn cannot_sign_up_account_without_user_id_and_password() {
    let mut store = UserStore::new();
    let err = signup(
        &mut store,
        Signup {
            user_id: None,
            password: None,
        },
    )
    .expect_err("missing fields must fail");
    assert_eq!(err, SignupError::InvalidPayload);
    let (category, body) = signup_error_response(&err);
    assert_eq!(category, ErrorCategory::BadRequest);
    assert_eq!(body.message, "Account creation failed");
    assert!(body.cause.unwrap().contains("required"));
    assert_eq!(store.len(), 0);
}

#[test]
fn signup_rejects_a_short_identifier() {
    let mut store = UserStore::new();
    let err = signup(&mut store, payload("shortid", "longenough")).expect_err("7 chars");
    match &err {
        SignupError::Validation { field, reason } => {
            assert_eq!(field, "user_id");
            assert_eq!(reason, "must be greater than or equal to 8");
        }
        other => panic!("expected a validation error, got {other:?}"),
    }
    let (category, body) = signup_error_response(&err);
    assert_eq!(category, ErrorCategory::BadRequest);
    assert_eq!(
        body.cause.unwrap(),
        "Submission for field user_id is invalid: must be greater than or equal to 8"
    );
}

#[test]
fn signup_rejects_a_long_identifier() {
    let mut store = UserStore::new();
    let err = signup(&mut store, payload("12345678901234567890", "longenough"))
        .expect_err("20 bytes is over the bound");
    match err {
        SignupError::Validation { field, reason } => {
            assert_eq!(field, "user_id");
            assert_eq!(reason, "must be less or equal to 20");
        }
        other => panic!("expected a validation error, got {other:?}"),
    }
    // The largest accepted identifier: 19 bytes.
    assert!(signup(&mut store, payload("1234567890123456789", "longenough")).is_ok());
}

#[test]
fn signup_rejects_a_taken_identifier() {
    let mut store = seeded_store();
    let err =
        signup(&mut store, payload("TaroYamada", "otherpass")).expect_err("duplicate id");
    assert_eq!(err, SignupError::UserAlreadyExists("TaroYamada".to_string()));
    let (category, body) = signup_error_response(&err);
    assert_eq!(category, ErrorCategory::BadRequest);
    assert_eq!(body.cause.unwrap(), "already same user_id is used");
    assert_eq!(store.len(), 1);
}

#[test]
fn signin_returns_a_verifiable_token() {
    let mut store = UserStore::new();
    signup(&mut store, payload("TaroYamada", "PaSSwd4TY")).expect("signup");
    let creds = Signin {
        user_id: "TaroYamada".to_string(),
        password: "PaSSwd4TY".to_string(),
    };
    let token = signin(&store, &creds, SECRET, 1_000, 3_600).expect("signin");
    let claims =
        track_api_challenge::token::verify_jwt(&token, SECRET, 2_000).expect("fresh token");
    assert_eq!(claims.iat, 1_000);
    assert_eq!(claims.exp, 4_600);
    // The token's subject is the stored record's subject key.
    let user = get_one(&store, &claims.sub).expect("subject resolves to the record");
    assert_eq!(user.user_id, "TaroYamada");
}

#[test]
fn rejections_for_unknown_user_and_wrong_secret_are_identical() {
    let store = seeded_store();
    let wrong_secret = signin(
        &store,
        &Signin {
            user_id: "TaroYamada".to_string(),
            password: "WRONGpass".to_string(),
        },
        SECRET,
        1_000,
        3_600,
    )
    .expect_err("wrong secret");
    let unknown_user = signin(
        &store,
        &Signin {
            user_id: "NoSuchUser".to_string(),
            password: "PaSSwd4TY".to_string(),
        },
        SECRET,
        1_000,
        3_600,
    )
    .expect_err("unknown identifier");
    // The two rejections are the same value...
    assert_eq!(wrong_secret, unknown_user);
    assert_eq!(wrong_secret, AuthError::InvalidCredentials);
    // ...and map to byte-identical outward responses.
    let (cat1, body1) = auth_error_response(&wrong_secret);
    let (cat2, body2) = auth_error_response(&unknown_user);
    assert_eq!(cat1, cat2);
    assert_eq!(cat1, ErrorCategory::Unauthenticated);
    assert_eq!(body1.message, body2.message);
    assert_eq!(body1.message, "Authentication Failed");
    assert_eq!(body1.cause, None);
    assert_eq!(body2.cause, None);
}

#[test]
fn authorize_allows_self_and_forbids_others() {
    let alice = Principal::new("alice".to_string());
    assert!(matches!(
        authorize(&alice, "alice"),
        AuthzDecision::Allowed
    ));
    match authorize(&alice, "bob") {
        AuthzDecision::Forbidden {
            requester,
            requested,
        } => {
            assert_eq!(requester, "alice");
            assert_eq!(requested, "bob");
            let err = UpdateError::Forbidden {
                requester,
                requested,
            };
            let (category, body) = update_error_response(&err);
            assert_eq!(category, ErrorCategory::Unauthorized);
            assert_eq!(body.message, "No Permission for Update");
            assert_eq!(
                body.cause.unwrap(),
                "A user with the id 'alice' does not have permission to update user 'bob'"
            );
        }
        AuthzDecision::Allowed => panic!("alice must not touch bob's record"),
    }
    // Exact, case-sensitive comparison.
    assert!(matches!(
        authorize(&alice, "Alice"),
        AuthzDecision::Forbidden { .. }
    ));
}

#[test]
fn can_update_user_information() {
    let mut store = seeded_store();
    let resp = update_user(
        &mut store,
        "TaroYamada",
        &UpdateUserDto {
            nickname: Some("Taro".to_string()),
            comment: Some("I am happy".to_string()),
        },
    )
    .expect("update");
    assert_eq!(resp.user_id, None);
    assert_eq!(resp.nickname, "Taro");
    assert_eq!(resp.comment.as_deref(), Some("I am happy"));
}

#[test]
fn partial_update_keeps_the_absent_field() {
    let mut store = seeded_store();
    // Only the comment: the stored nickname stays what it was.
    let resp = update_user(
        &mut store,
        "TaroYamada",
        &UpdateUserDto {
            nickname: None,
            comment: Some("only a comment".to_string()),
        },
    )
    .expect("comment-only update");
    assert_eq!(resp.nickname, "TaroYamada");
    assert_eq!(resp.comment.as_deref(), Some("only a comment"));
    // Only the nickname: the stored comment stays what it was.
    let resp = update_user(
        &mut store,
        "TaroYamada",
        &UpdateUserDto {
            nickname: Some("Taro".to_string()),
            comment: None,
        },
    )
    .expect("nickname-only update");
    assert_eq!(resp.nickname, "Taro");
    assert_eq!(resp.comment.as_deref(), Some("only a comment"));
    let read = get_one_by_str_id(&store, "TaroYamada").expect("read back");
    assert_eq!(read.nickname, "Taro");
    assert_eq!(read.comment.as_deref(), Some("only a comment"));
}

#[test]
fn update_rejects_out_of_bound_fields() {
    let mut store = seeded_store();
    let err = update_user(
        &mut store,
        "TaroYamada",
        &UpdateUserDto {
            nickname: None,
            comment: Some("x".repeat(30)),
        },
    )
    .expect_err("30 bytes is over the comment bound");
    assert_eq!(
        err,
        UpdateError::Validation {
            field: "comment".to_string(),
            reason: "must be less or equal to 30".to_string(),
        }
    );
    let err = update_user(
        &mut store,
        "TaroYamada",
        &UpdateUserDto {
            nickname: Some("y".repeat(20)),
            comment: None,
        },
    )
    .expect_err("20 bytes is over the nickname bound");
    assert_eq!(
        err,
        UpdateError::Validation {
            field: "nickname".to_string(),
            reason: "must be less or equal to 20".to_string(),
        }
    );
}

#[test]
fn update_of_an_unknown_user_is_not_found() {
    let mut store = seeded_store();
    let err = update_user(
        &mut store,
        "NoSuchUser",
        &UpdateUserDto {
            nickname: None,
            comment: Some("hello".to_string()),
        },
    )
    .expect_err("unknown target");
    assert_eq!(err, UpdateError::NotFound("NoSuchUser".to_string()));
}

#[test]
fn can_delete_account() {
    let mut store = seeded_store();
    let removed = delete(&mut store, &BasicId::new("TaroYamada".to_string())).expect("delete");
    assert_eq!(removed.user_id, "TaroYamada");
    assert_eq!(store.len(), 0);
    assert_eq!(
        get_one_by_str_id(&store, "TaroYamada").unwrap_err(),
        GetOneError::NotFound("TaroYamada".to_string())
    );
    assert_eq!(
        delete(&mut store, &BasicId::new("TaroYamada".to_string())).unwrap_err(),
        DeleteError::NotFound("TaroYamada".to_string())
    );
}

#[test]
fn read_and_delete_failures_map_tersely() {
    let (category, body) =
        track_api_challenge::errors::get_one_error_response(&GetOneError::NotFound(
            "whoever".to_string(),
        ));
    assert_eq!(category, ErrorCategory::BadRequest);
    assert_eq!(body.message, "No User found");
    assert_eq!(body.cause, None);
    let (category, body) =
        track_api_challenge::errors::delete_error_response(&DeleteError::NotFound(
            "whoever".to_string(),
        ));
    assert_eq!(category, ErrorCategory::BadRequest);
    assert_eq!(body.message, "Failed to delete the account");
    assert_eq!(body.cause, None);
}

#[test]
fn internal_faults_map_to_the_generic_body() {
    for e in [
        AuthError::Signing,
        AuthError::MalformedStoredHash,
        AuthError::InvalidToken(TokenError::Signing),
    ] {
        let (category, body) = auth_error_response(&e);
        assert_eq!(category, ErrorCategory::Internal);
        assert_eq!(body.message, "An internal server error occurred");
        assert_eq!(body.cause, None);
    }
}

#[test]
fn get_one_misses_an_unknown_subject_key() {
    let store = seeded_store();
    assert_eq!(
        get_one(&store, "no-such-subject-key").unwrap_err(),
        GetOneError::NotFound("no-such-subject-key".to_string())
    );
}

#[test]
fn authenticate_basic_accepts_correct_credentials() {
    let store = seeded_store();
    let header = basic_header("TaroYamada", "PaSSwd4TY");
    let principal = authenticate_basic(&store, Some(&header)).expect("valid credentials");
    assert_eq!(principal.id, "TaroYamada");
}

#[test]
fn authenticate_basic_rejections_are_uniform() {
    let store = seeded_store();
    let wrong = authenticate_basic(&store, Some(&basic_header("TaroYamada", "nope")))
        .expect_err("wrong secret");
    let unknown = authenticate_basic(&store, Some(&basic_header("NoSuchUser", "PaSSwd4TY")))
        .expect_err("unknown identifier");
    let missing = authenticate_basic(&store, None).expect_err("no header");
    let malformed =
        authenticate_basic(&store, Some("Basic !!!not-base64!!!")).expect_err("bad base64");
    let no_secret = authenticate_basic(
        &store,
        Some(&format!(
            "Basic {}",
            base64::engine::general_purpose::STANDARD.encode("TaroYamada:")
        )),
    )
    .expect_err("empty secret half");
    for e in [&wrong, &unknown, &missing, &malformed, &no_secret] {
        assert_eq!(e, &AuthError::InvalidCredentials);
        let (category, body) = auth_error_response(e);
        assert_eq!(category, ErrorCategory::Unauthenticated);
        assert_eq!(body.message, "Authentication Failed");
        assert_eq!(body.cause, None);
    }
}

#[test]
fn authenticate_bearer_accepts_a_fresh_token_and_rejects_a_stale_one() {
    let token =
        track_api_challenge::token::issue_jwt_at("subject-1", SECRET, 100, 200).expect("issue");
    let header = format!("Bearer {token}");
    let principal = authenticate_bearer(Some(&header), SECRET, 150).expect("fresh token");
    assert_eq!(principal.id, "subject-1");
    let expired = authenticate_bearer(Some(&header), SECRET, 200).expect_err("stale token");
    assert_eq!(expired, AuthError::InvalidToken(TokenError::Expired));
    let (category, body) = auth_error_response(&expired);
    assert_eq!(category, ErrorCategory::Unauthenticated);
    assert_eq!(body.message, "Authentication Failed");
    let missing = authenticate_bearer(None, SECRET, 150).expect_err("no header");
    assert_eq!(missing, AuthError::InvalidCredentials);
    let wrong_scheme =
        authenticate_bearer(Some(&basic_header("a", "b")), SECRET, 150).expect_err("basic");
    assert_eq!(wrong_scheme, AuthError::InvalidCredentials);
}
