use aipass::clock::{now_epoch_seconds, seconds_of};
use aipass::error::AiPassError;
use aipass::json::{parse_json, Json};
use aipass::profile::Profile;
use aipass::tokens::{
    cleared_item, exchange_body, exchange_reply, is_granted, is_renewal_due, opened_item, parse_token_body,
    parse_token_response, parse_token_response_at, renewal_body, renewal_reply, revocation_form, saved_item,
    sealed_item, take_token_string, KeychainReply, TokenBundle,
};

fn json(text: &str) -> Json {
    parse_json(text.as_bytes()).expect("JSON")
}

#[test]
fn token_rotation_requires_bearer_and_preserves_required_scope() {
    let mut initial = json(
        r#"{
            "access_token": "access-1",
            "refresh_token": "refresh-1",
            "expires_in": 3600,
            "token_type": "Bearer",
            "scope": "api:access profile:read"
        }"#,
    );
    let tokens = parse_token_response(&mut initial, None, None).ok().expect("initial tokens");
    assert_eq!(tokens.refresh_token, "refresh-1");

    let mut rotated = json(
        r#"{
            "access_token": "access-2",
            "expires_in": 3600,
            "token_type": "bearer"
        }"#,
    );
    let next = parse_token_response(
        &mut rotated,
        Some(&tokens.refresh_token),
        tokens.scope.as_deref(),
    )
    .ok()
    .expect("rotated tokens");
    assert_eq!(next.refresh_token, "refresh-1");
    assert_eq!(next.scope.as_deref(), Some("api:access profile:read"));

    let mut malformed_rotation = json(
        r#"{
            "access_token": "access-3",
            "refresh_token": "",
            "expires_in": 3600,
            "token_type": "Bearer"
        }"#,
    );
    assert!(parse_token_response(
        &mut malformed_rotation,
        Some(&tokens.refresh_token),
        tokens.scope.as_deref(),
    )
    .is_err());

    let mut insufficient = json(
        r#"{
            "access_token": "access",
            "refresh_token": "refresh",
            "expires_in": 3600,
            "token_type": "Bearer",
            "scope": "profile:read"
        }"#,
    );
    assert!(parse_token_response(&mut insufficient, None, None).is_err());
}

const REPLY: &str = r#"{
    "access_token": "a",
    "refresh_token": "r",
    "expires_in": 3600,
    "token_type": "BEARER",
    "scope": "other profile:read\tapi:access"
}"#;

fn failure(text: &str, now: Option<u64>) -> Option<AiPassError> {
    parse_token_response_at(&mut json(text), None, None, now).err()
}

#[test]
fn token_replies_give_tokens() {
    let mut value = json(REPLY);
    let tokens = parse_token_response_at(&mut value, Some("old"), Some("old"), Some(1000))
        .ok()
        .expect("tokens");
    assert_eq!(tokens.access_token, "a");
    assert_eq!(tokens.refresh_token, "r");
    assert_eq!(tokens.expires_at_epoch_seconds, 4600);
    assert_eq!(tokens.scope.as_deref(), Some("other profile:read\tapi:access"));
    assert!(tokens.profile.display_name.is_none() && tokens.profile.email.is_none());
    assert!(value.get("access_token").is_none());
    assert!(value.get("refresh_token").is_none());
    assert!(value.get("scope").is_none());
    assert_eq!(value.str_at("token_type"), Some("BEARER"));

    let late = parse_token_response_at(&mut json(REPLY), None, None, Some(u64::MAX - 1));
    assert_eq!(late.ok().expect("tokens").expires_at_epoch_seconds, u64::MAX);
}

#[test]
fn token_failures_have_their_reasons() {
    let change = |from: &str, to: &str| {
        let text = REPLY.replace(from, to);
        assert_ne!(text, REPLY);
        failure(&text, Some(0))
    };
    assert_eq!(failure("[]", Some(0)), Some(AiPassError::TokenResponseInvalid));
    assert_eq!(change(r#""a""#, "7"), Some(AiPassError::TokenResponseInvalid));
    assert_eq!(change(r#""r""#, "null"), Some(AiPassError::TokenResponseInvalid));
    assert_eq!(
        change(r#""other profile:read\tapi:access""#, "[]"),
        Some(AiPassError::TokenResponseInvalid)
    );
    assert_eq!(change(r#""a""#, r#""""#), Some(AiPassError::AccessTokenInvalid));
    assert_eq!(change("access_token", "other"), Some(AiPassError::AccessTokenInvalid));
    let long = format!("\"{}\"", "x".repeat(16385));
    assert_eq!(change(r#""a""#, &long), Some(AiPassError::AccessTokenInvalid));
    assert_eq!(change(r#""r""#, &long), Some(AiPassError::RefreshTokenInvalid));
    assert_eq!(change(r#""r""#, r#""""#), Some(AiPassError::RefreshTokenInvalid));
    assert_eq!(change("refresh_token", "other"), Some(AiPassError::RefreshTokenMissing));
    assert_eq!(change("BEARER", "MAC"), Some(AiPassError::TokenTypeUnsupported));
    assert_eq!(change("token_type", "other"), Some(AiPassError::TokenTypeUnsupported));
    for lifetime in ["0", "31536001", "-1", "1.5", "\"3600\"", "null"] {
        assert_eq!(change("3600", lifetime), Some(AiPassError::TokenLifetimeInvalid));
    }
    assert_eq!(change("3600", "31536000"), None);
    assert_eq!(failure(REPLY, None), Some(AiPassError::ClockUnavailable));
    let scope = r#""other profile:read\tapi:access""#;
    let long_scope = format!("\"{}\"", "x".repeat(4097));
    assert_eq!(change(scope, r#""""#), Some(AiPassError::ScopeInvalid));
    assert_eq!(change(scope, &long_scope), Some(AiPassError::ScopeInvalid));
    assert_eq!(change("\"scope\"", "\"other\""), Some(AiPassError::ScopeMissing));
    assert_eq!(change("api:access", "api:accesses"), Some(AiPassError::ScopeNotGranted));
    assert_eq!(change("\\tapi", "\\u000bapi"), Some(AiPassError::ScopeNotGranted));
}

#[test]
fn renewal_keeps_what_the_reply_leaves_out() {
    let text = r#"{"access_token": "b", "expires_in": 1, "token_type": "bearer"}"#;
    let renewed = parse_token_response_at(
        &mut json(text),
        Some("kept"),
        Some("api:access profile:read"),
        Some(5),
    )
    .ok()
    .expect("tokens");
    assert_eq!(renewed.access_token, "b");
    assert_eq!(renewed.refresh_token, "kept");
    assert_eq!(renewed.scope.as_deref(), Some("api:access profile:read"));
    assert_eq!(renewed.expires_at_epoch_seconds, 6);
    let unscoped = parse_token_response_at(&mut json(text), Some("kept"), None, Some(5));
    assert_eq!(unscoped.err(), Some(AiPassError::ScopeMissing));
    let narrow = parse_token_response_at(&mut json(text), Some("kept"), Some("api:access"), Some(5));
    assert_eq!(narrow.err(), Some(AiPassError::ScopeNotGranted));
}

#[test]
fn token_bodies_are_read_at_the_present_time() {
    let before = now_epoch_seconds().expect("clock");
    let tokens = parse_token_body(REPLY.as_bytes(), None, None).ok().expect("tokens");
    let after = now_epoch_seconds().expect("clock");
    assert!(before > 1_600_000_000);
    assert!(before + 3600 <= tokens.expires_at_epoch_seconds);
    assert!(tokens.expires_at_epoch_seconds <= after + 3600);
    assert_eq!(
        parse_token_body(b"{", None, None).err(),
        Some(AiPassError::TokenResponseInvalid)
    );
}

#[test]
fn clock_readings_may_be_missing() {
    assert_eq!(seconds_of(Some(7)), Ok(7));
    assert_eq!(seconds_of(None), Err(AiPassError::ClockUnavailable));
}

#[test]
fn texts_are_taken_out_of_objects() {
    let mut object = json(r#"{"a": "x", "b": 7, "c": null}"#);
    assert_eq!(take_token_string(&mut object, "a"), Ok(Some("x".to_string())));
    assert_eq!(take_token_string(&mut object, "a"), Ok(None));
    assert_eq!(take_token_string(&mut object, "b"), Err(AiPassError::TokenResponseInvalid));
    assert!(object.get("b").is_none());
    assert!(object.get("c").is_some());
}

#[test]
fn scopes_are_words() {
    assert!(is_granted("api:access profile:read"));
    assert!(is_granted("x\nprofile:read\rapi:access "));
    assert!(!is_granted("api:access,profile:read"));
    assert!(!is_granted("api:access"));
    assert!(!is_granted("profile:read"));
    assert!(!is_granted("api:access\u{a0}profile:read"));
}

#[test]
fn renewal_is_due_within_the_margin() {
    assert!(is_renewal_due(1060, 1000, false));
    assert!(!is_renewal_due(1061, 1000, false));
    assert!(is_renewal_due(1061, 1000, true));
    assert!(is_renewal_due(u64::MAX, u64::MAX - 1, false));
}

#[test]
fn request_bodies_are_exact() {
    assert_eq!(
        exchange_body("client", "http://127.0.0.1:1/oauth/callback", "co\"de", "verifier")
            .expect("body"),
        br#"{"clientId":"client","code":"co\"de","codeVerifier":"verifier","grantType":"authorization_code","redirectUri":"http://127.0.0.1:1/oauth/callback"}"#
    );
    assert_eq!(
        renewal_body("client", "refresh").expect("body"),
        br#"{"clientId":"client","grantType":"refresh_token","refreshToken":"refresh"}"#
    );
    assert_eq!(revocation_form("a b/c", "client"), "token=a+b%2Fc&client_id=client");
}

#[test]
fn written_documents_read_back() {
    let body = exchange_body("c", "r", "\u{1f600}\n", "v").expect("body");
    let value = parse_json(&body).expect("JSON");
    assert_eq!(value.str_at("grantType"), Some("authorization_code"));
    assert_eq!(value.str_at("code"), Some("\u{1f600}\n"));
    assert_eq!(value.str_at("codeVerifier"), Some("v"));
    assert_eq!(value.str_at("clientId"), Some("c"));
    assert_eq!(value.str_at("redirectUri"), Some("r"));
}

#[test]
fn keychain_replies_are_judged() {
    assert_eq!(opened_item(KeychainReply::Done(vec![1, 2])), Ok(Some(vec![1, 2])));
    assert_eq!(opened_item(KeychainReply::Done(vec![0; 65536])), Ok(Some(vec![0; 65536])));
    assert_eq!(
        opened_item(KeychainReply::Done(vec![0; 65537])),
        Err(AiPassError::KeychainInvalid)
    );
    assert_eq!(opened_item(KeychainReply::Failed(-25300)), Ok(None));
    assert_eq!(
        opened_item(KeychainReply::Failed(-25299)),
        Err(AiPassError::KeychainUnavailable)
    );
    assert_eq!(sealed_item(vec![0; 65536]), Ok(vec![0; 65536]));
    assert_eq!(sealed_item(vec![0; 65537]), Err(AiPassError::KeychainTooLarge));
    assert_eq!(saved_item(KeychainReply::Done(())), Ok(()));
    assert_eq!(saved_item(KeychainReply::Failed(-25300)), Err(AiPassError::KeychainNotSaved));
    assert_eq!(cleared_item(KeychainReply::Done(())), Ok(()));
    assert_eq!(cleared_item(KeychainReply::Failed(-25300)), Ok(()));
    assert_eq!(cleared_item(KeychainReply::Failed(1)), Err(AiPassError::KeychainNotCleared));
}

#[test]
fn wiping_leaves_the_profile() {
    let mut tokens = TokenBundle {
        access_token: "a".to_string(),
        refresh_token: "r".to_string(),
        expires_at_epoch_seconds: 7,
        scope: Some("s".to_string()),
        profile: Profile { display_name: Some("Ada".to_string()), email: None },
    };
    tokens.wipe();
    assert_eq!(tokens.access_token, "");
    assert_eq!(tokens.refresh_token, "");
    assert_eq!(tokens.expires_at_epoch_seconds, 0);
    assert_eq!(tokens.scope, None);
    assert_eq!(tokens.profile.display_name.as_deref(), Some("Ada"));
}

#[test]
fn exchange_replies_are_judged() {
    assert_eq!(
        exchange_reply(400, REPLY.as_bytes()).err(),
        Some(AiPassError::ExchangeRejected)
    );
    assert_eq!(exchange_reply(200, b"{").err(), Some(AiPassError::TokenResponseInvalid));
    let unscoped =
        br#"{"access_token": "a", "refresh_token": "r", "expires_in": 9, "token_type": "bearer"}"#;
    let tokens = exchange_reply(200, unscoped).ok().expect("tokens");
    assert_eq!(tokens.refresh_token, "r");
    assert_eq!(tokens.scope.as_deref(), Some("api:access profile:read"));
    let unrefreshed = br#"{"access_token": "a", "expires_in": 9, "token_type": "bearer"}"#;
    assert_eq!(
        exchange_reply(201, unrefreshed).err(),
        Some(AiPassError::RefreshTokenMissing)
    );
}

#[test]
fn renewal_replies_use_the_earlier_tokens() {
    let earlier = TokenBundle {
        access_token: "a".to_string(),
        refresh_token: "kept".to_string(),
        expires_at_epoch_seconds: 7,
        scope: Some("profile:read api:access".to_string()),
        profile: Profile::default(),
    };
    let body = br#"{"access_token": "b", "expires_in": 9, "token_type": "bearer"}"#;
    let renewed = renewal_reply(body, &earlier).ok().expect("tokens");
    assert_eq!(renewed.access_token, "b");
    assert_eq!(renewed.refresh_token, "kept");
    assert_eq!(renewed.scope.as_deref(), Some("profile:read api:access"));
    let body = br#"{"access_token": "b", "refresh_token": "n", "scope": "api:access profile:read x",
        "expires_in": 9, "token_type": "bearer"}"#;
    let renewed = renewal_reply(body, &earlier).ok().expect("tokens");
    assert_eq!(renewed.refresh_token, "n");
    assert_eq!(renewed.scope.as_deref(), Some("api:access profile:read x"));
    assert_eq!(
        renewal_reply(b"[]", &earlier).err(),
        Some(AiPassError::TokenResponseInvalid)
    );
    let unscoped = TokenBundle { scope: None, ..earlier };
    let body = br#"{"access_token": "b", "expires_in": 9, "token_type": "bearer"}"#;
    assert_eq!(renewal_reply(body, &unscoped).err(), Some(AiPassError::ScopeMissing));
}
