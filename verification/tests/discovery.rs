use aipass::error::AiPassError;
use aipass::json::{parse_json, Json};
use aipass::limits::{DISCOVERY_URL, MAX_MODELS, MAX_MODEL_ID_BYTES, MODELS_URL};
use aipass::metadata::{
    array_contains, judge_metadata, metadata_reply, parse_metadata, read_metadata, validate_metadata,
};
use aipass::models::{is_valid_model_id, models_reply, parse_model_ids, parse_models_body};
use aipass::profile::{
    client_id, clipped_profile_field, parse_profile, parse_profile_body, profile_reply,
    ConnectionStatus, Profile,
};

fn json(text: &str) -> Json {
    parse_json(text.as_bytes()).expect("JSON")
}

const OPENAI: &str = r#"{
    "object": "list",
    "data": [
        {
            "id": "provider/new-chat-model",
            "object": "model",
            "created": 1753000000,
            "owned_by": "provider",
            "future_additive_field": {"nested": true}
        },
        {
            "id": "another-provider/model:version",
            "object": "model",
            "created": 1753000001,
            "owned_by": "another-provider"
        }
    ]
}"#;

fn first_model(value: &mut Json) -> &mut Json {
    if let Json::Object(members) = value {
        for (name, member) in members.iter_mut() {
            if name == "data" {
                if let Json::Array(items) = member {
                    return &mut items[0];
                }
            }
        }
    }
    panic!("no model")
}

#[test]
fn model_discovery_uses_openai_contract_and_server_side_chat_filters() {
    assert_eq!(
        MODELS_URL,
        "https://aipass.one/oauth2/v1/models?type=text&method=chat_completions"
    );

    let openai = json(OPENAI);
    assert_eq!(
        parse_model_ids(&openai).expect("OpenAI-compatible models"),
        vec!["provider/new-chat-model", "another-provider/model:version"]
    );

    for missing in ["object", "created", "owned_by"] {
        let mut malformed = json(OPENAI);
        let removed = first_model(&mut malformed).remove(missing);
        assert!(removed.is_some(), "model object");
        assert!(
            parse_model_ids(&malformed).is_err(),
            "canonical model missing {missing} must be rejected"
        );
    }
}

#[test]
fn model_discovery_accepts_legacy_string_arrays_for_migration() {
    let legacy = json(r#"["future/model-a", "future/model-b", "future/model-a"]"#);
    assert_eq!(
        parse_model_ids(&legacy).expect("legacy models"),
        vec!["future/model-a", "future/model-b"]
    );
    assert!(parse_model_ids(&json(r#"[{"id": "legacy/object-model"}]"#)).is_err());
}

#[test]
fn model_discovery_rejects_unbounded_or_malformed_payloads() {
    assert!(parse_model_ids(&json(r#"{"object": "list", "data": "bad"}"#)).is_err());
    assert!(parse_model_ids(&json(r#"[7, "valid"]"#)).is_err());
    assert!(parse_model_ids(&json(r#"[""]"#)).is_err());
    let long = "x".repeat(MAX_MODEL_ID_BYTES + 1);
    assert!(parse_model_ids(&json(&format!("[\"{long}\"]"))).is_err());
}

#[test]
fn model_failures_have_their_reasons() {
    for text in [
        "null",
        "7",
        "{}",
        r#"{"object": "lists", "data": []}"#,
        r#"{"object": "list"}"#,
        r#"{"object": "list", "data": {}}"#,
    ] {
        assert_eq!(parse_model_ids(&json(text)), Err(AiPassError::ModelListInvalid), "{text}");
    }
    for text in [
        r#"[7]"#,
        r#"[["a"]]"#,
        r#"{"object": "list", "data": ["a"]}"#,
        r#"{"object": "list", "data": [{"id": 7, "object": "model", "created": 1, "owned_by": "o"}]}"#,
        r#"{"object": "list", "data": [{"id": "a", "object": "model", "created": 1.5, "owned_by": "o"}]}"#,
        r#"{"object": "list", "data": [{"id": "a", "object": "model", "created": -1, "owned_by": "o"}]}"#,
        r#"{"object": "list", "data": [{"id": "a", "object": "model", "created": 1, "owned_by": ""}]}"#,
        r#"{"object": "list", "data": [{"id": "a", "object": "models", "created": 1, "owned_by": "o"}]}"#,
    ] {
        assert_eq!(parse_model_ids(&json(text)), Err(AiPassError::ModelEntryInvalid), "{text}");
    }
    for text in [r#"["a", ""]"#, r#"["a\u0007"]"#, r#"["a\u0085b"]"#] {
        assert_eq!(parse_model_ids(&json(text)), Err(AiPassError::ModelIdInvalid), "{text}");
    }
    assert_eq!(parse_model_ids(&json(r#"["", 7]"#)), Err(AiPassError::ModelIdInvalid));
    assert_eq!(parse_model_ids(&json(r#"[7, ""]"#)), Err(AiPassError::ModelEntryInvalid));
    assert_eq!(parse_model_ids(&json("[]")), Err(AiPassError::NoModels));
    assert_eq!(
        parse_model_ids(&json(r#"{"object": "list", "data": []}"#)),
        Err(AiPassError::NoModels)
    );
    assert_eq!(parse_models_body(b"{"), Err(AiPassError::ModelListInvalid));
    assert_eq!(parse_models_body(br#"["m"]"#), Ok(vec!["m".to_string()]));
}

#[test]
fn model_lists_are_bounded() {
    let names: Vec<String> = (0..MAX_MODELS).map(|i| format!("\"m{i}\"")).collect();
    let full = json(&format!("[{}]", names.join(",")));
    let models = parse_model_ids(&full).expect("models");
    assert_eq!(models.len(), MAX_MODELS);
    assert_eq!(models[0], "m0");
    assert_eq!(models[MAX_MODELS - 1], format!("m{}", MAX_MODELS - 1));
    let over = json(&format!("[{},\"m0\"]", names.join(",")));
    assert_eq!(parse_model_ids(&over), Err(AiPassError::TooManyModels));
}

#[test]
fn model_ids_are_bounded_texts() {
    assert!(is_valid_model_id("provider/model:v1"));
    assert!(is_valid_model_id(&"x".repeat(256)));
    assert!(!is_valid_model_id(&"x".repeat(257)));
    assert!(is_valid_model_id(&"\u{e9}".repeat(128)));
    assert!(!is_valid_model_id(&"\u{e9}".repeat(129)));
    assert!(!is_valid_model_id(""));
    assert!(!is_valid_model_id("a\u{7f}"));
    assert!(is_valid_model_id("a\u{a0}b"));
}

const METADATA: &str = r#"{
    "issuer": "https://aipass.one",
    "authorization_endpoint": "https://aipass.one/oauth2/authorize",
    "token_endpoint": "https://aipass.one/oauth2/token",
    "userinfo_endpoint": "https://aipass.one/oauth2/userinfo",
    "revocation_endpoint": "https://aipass.one/oauth2/revoke",
    "scopes_supported": ["api:access", "profile:read"],
    "response_types_supported": ["code"],
    "grant_types_supported": ["authorization_code", "refresh_token"],
    "code_challenge_methods_supported": ["S256"],
    "token_endpoint_auth_methods_supported": ["none"]
}"#;

#[test]
fn oauth_metadata_must_match_the_pinned_issuer_and_secure_endpoints() {
    validate_metadata(&json(METADATA)).ok().expect("valid metadata");

    let wrong_host = METADATA.replace(
        "https://aipass.one/oauth2/token",
        "https://attacker.example/oauth2/token",
    );
    assert!(validate_metadata(&json(&wrong_host)).is_err());

    let missing_scope = METADATA.replace(r#"["api:access", "profile:read"]"#, r#"["profile:read"]"#);
    assert!(validate_metadata(&json(&missing_scope)).is_err());
}

#[test]
fn metadata_gives_the_endpoints() {
    let metadata = parse_metadata(METADATA.as_bytes()).ok().expect("metadata");
    assert_eq!(metadata.issuer, "https://aipass.one");
    assert_eq!(metadata.authorization_endpoint, "https://aipass.one/oauth2/authorize");
    assert_eq!(metadata.token_endpoint, "https://aipass.one/oauth2/token");
    assert_eq!(metadata.userinfo_endpoint, "https://aipass.one/oauth2/userinfo");
    assert_eq!(metadata.revocation_endpoint, "https://aipass.one/oauth2/revoke");
    assert_eq!(
        DISCOVERY_URL,
        "https://aipass.one/.well-known/oauth-authorization-server"
    );
}

#[test]
fn incomplete_metadata_is_invalid() {
    for field in [
        "issuer",
        "authorization_endpoint",
        "token_endpoint",
        "userinfo_endpoint",
        "revocation_endpoint",
    ] {
        let renamed = METADATA.replace(&format!("\"{field}\""), "\"other\"");
        assert_eq!(
            validate_metadata(&json(&renamed)).err(),
            Some(AiPassError::MetadataInvalid),
            "{field}"
        );
    }
    let number = METADATA.replace(r#""issuer": "https://aipass.one""#, r#""issuer": 7"#);
    for text in [number.as_str(), "null", "[]", r#"["a", "b", "c", "d", 5]"#, r#""text""#] {
        assert_eq!(
            validate_metadata(&json(text)).err(),
            Some(AiPassError::MetadataInvalid),
            "{text}"
        );
    }
    assert_eq!(parse_metadata(b"not json").err(), Some(AiPassError::MetadataInvalid));
}

#[test]
fn untrusted_metadata_is_rejected() {
    for (from, to) in [
        (r#""issuer": "https://aipass.one""#, r#""issuer": "https://aipass.one/""#),
        ("https://aipass.one/oauth2/authorize", "http://aipass.one/oauth2/authorize"),
        ("https://aipass.one/oauth2/userinfo", "https://aipass.one:1/oauth2/userinfo"),
        ("https://aipass.one/oauth2/revoke", "https://aipass.one/oauth2/revoke?x"),
        (r#""profile:read""#, r#""profile:write""#),
        (r#"["code"]"#, r#"["token"]"#),
        (r#""authorization_code""#, r#""implicit""#),
        (r#""refresh_token""#, r#""implicit""#),
        (r#"["S256"]"#, r#"["plain"]"#),
        (r#"["none"]"#, r#""none""#),
        ("code_challenge_methods_supported", "other"),
    ] {
        let text = METADATA.replace(from, to);
        assert_ne!(text, METADATA);
        assert_eq!(
            validate_metadata(&json(&text)).err(),
            Some(AiPassError::MetadataRejected),
            "{to}"
        );
    }
    let list = r#"["https://aipass.one", "https://aipass.one/a", "https://aipass.one/t",
        "https://aipass.one/u", "https://aipass.one/r"]"#;
    assert_eq!(validate_metadata(&json(list)).err(), Some(AiPassError::MetadataRejected));
}

#[test]
fn metadata_is_judged_by_its_pins() {
    let value = json(METADATA);
    assert!(judge_metadata(&value, read_metadata(&value), true).is_ok());
    assert_eq!(
        judge_metadata(&value, read_metadata(&value), false).err(),
        Some(AiPassError::MetadataRejected)
    );
    assert!(read_metadata(&json("{}")).is_none());
}

#[test]
fn arrays_are_searched_for_texts() {
    assert!(array_contains(&json(r#"[7, null, "x"]"#), "x"));
    assert!(!array_contains(&json(r#"[7, null, "x"]"#), "7"));
    assert!(!array_contains(&json(r#""x""#), "x"));
    assert!(!array_contains(&json("[]"), ""));
}

#[test]
fn client_is_what_the_build_was_given() {
    assert_eq!(client_id(None), None);
    assert_eq!(client_id(Some("")), None);
    assert_eq!(client_id(Some(" \t\n")), None);
    assert_eq!(client_id(Some(" client \u{3000}")), Some("client"));
}

#[test]
fn profile_fields_are_trimmed_and_clipped() {
    assert_eq!(clipped_profile_field(None), None);
    assert_eq!(clipped_profile_field(Some(" \u{a0} ")), None);
    assert_eq!(clipped_profile_field(Some(" Ada L. \n")).as_deref(), Some("Ada L."));
    let long = "\u{e9}".repeat(300);
    assert_eq!(clipped_profile_field(Some(&long)), Some("\u{e9}".repeat(256)));
    let exact = "x".repeat(256);
    assert_eq!(clipped_profile_field(Some(&exact)), Some(exact));
}

fn profile(text: &str) -> (Option<String>, Option<String>) {
    let profile = parse_profile(&json(text)).expect("profile");
    (profile.display_name, profile.email)
}

fn some(text: &str) -> Option<String> {
    Some(text.to_string())
}

#[test]
fn profiles_are_found_at_both_levels() {
    assert_eq!(profile("{}"), (None, None));
    assert_eq!(profile(r#"{"name": "Ada", "email": "a@b"}"#), (some("Ada"), some("a@b")));
    assert_eq!(
        profile(r#"{"user": {"name": "Ada", "email": "a@b"}}"#),
        (some("Ada"), some("a@b"))
    );
    assert_eq!(
        profile(r#"{"display_name": "D", "user": {"name": "N"}}"#),
        (some("N"), None)
    );
    assert_eq!(
        profile(r#"{"user": {"display_name": "D"}, "name": 7, "email": null}"#),
        (some("D"), None)
    );
    assert_eq!(profile(r#"{"name": " ", "display_name": "D"}"#), (None, None));
    assert_eq!(profile(r#"{"user": ["name"]}"#), (None, None));
    for text in ["null", "[]", r#""name""#] {
        assert_eq!(parse_profile(&json(text)).err(), Some(AiPassError::ProfileInvalid));
    }
    assert_eq!(parse_profile_body(b"").err(), Some(AiPassError::ProfileInvalid));
    let read = parse_profile_body(br#"{"email": "a@b"}"#).expect("profile");
    assert_eq!(read.email, some("a@b"));
}

#[test]
fn statuses_tell_of_the_connection() {
    let status = ConnectionStatus::disconnected(None);
    assert!(!status.configured && !status.connected);
    assert!(status.display_name.is_none() && status.email.is_none());
    let profile = Profile { display_name: some("Ada"), email: None };
    let status = ConnectionStatus::connected(Some("client"), profile.copy());
    assert!(status.configured && status.connected);
    assert_eq!(status.display_name, some("Ada"));
    assert_eq!(status.email, None);
    let unknown = Profile::default();
    assert!(unknown.display_name.is_none() && unknown.email.is_none());
}

#[test]
fn refused_replies_are_not_read() {
    assert!(metadata_reply(200, METADATA.as_bytes()).is_ok());
    assert_eq!(
        metadata_reply(500, METADATA.as_bytes()).err(),
        Some(AiPassError::MetadataUnavailable)
    );
    assert_eq!(metadata_reply(200, b"").err(), Some(AiPassError::MetadataInvalid));
    let profile = profile_reply(200, br#"{"name": "Ada"}"#).expect("profile");
    assert_eq!(profile.display_name, some("Ada"));
    assert_eq!(
        profile_reply(403, br#"{"name": "Ada"}"#).err(),
        Some(AiPassError::ProfileRejected)
    );
    assert_eq!(models_reply(200, br#"["m"]"#), Ok(vec!["m".to_string()]));
    assert_eq!(models_reply(401, br#"["m"]"#), Err(AiPassError::ModelsRejected));
    assert_eq!(models_reply(200, b"{}"), Err(AiPassError::ModelListInvalid));
}
