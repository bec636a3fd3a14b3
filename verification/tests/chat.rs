use aipass::chat::{
    aipass_cancel_chat, cancel_all_chat, is_valid_request_id, judge_chat, validate_chat_request,
    AiPassState,
};
use aipass::error::AiPassError;
use aipass::json::parse_json;

const BODY: &str = r#"{"model": "m", "messages": []}"#;

#[test]
fn chat_requests_are_validated() {
    assert_eq!(validate_chat_request(BODY), Ok(()));
    assert_eq!(validate_chat_request(""), Err(AiPassError::ChatTooLarge));
    let large = format!("{}{}", BODY, " ".repeat(4 * 1024 * 1024 - BODY.len()));
    assert_eq!(validate_chat_request(&large), Ok(()));
    assert_eq!(validate_chat_request(&format!("{large} ")), Err(AiPassError::ChatTooLarge));
    let long_model = format!(r#"{{"model": "{}", "messages": []}}"#, "m".repeat(257));
    for body in [
        "{",
        "[]",
        "null",
        r#"{"messages": []}"#,
        r#"{"model": 7, "messages": []}"#,
        r#"{"model": "", "messages": []}"#,
        r#"{"model": "m"}"#,
        r#"{"model": "m", "messages": {}}"#,
        long_model.as_str(),
    ] {
        assert_eq!(validate_chat_request(body), Err(AiPassError::ChatInvalid), "{body}");
    }
    assert_eq!(judge_chat(&parse_json(BODY.as_bytes()).expect("JSON")), Ok(()));
    assert_eq!(
        judge_chat(&parse_json(b"{}").expect("JSON")),
        Err(AiPassError::ChatInvalid)
    );
}

#[test]
fn request_ids_are_simple() {
    assert!(is_valid_request_id("aZ0-_"));
    assert!(is_valid_request_id(&"x".repeat(64)));
    for id in ["", "a b", "a.b", "\u{e9}", "a/b"] {
        assert!(!is_valid_request_id(id), "{id}");
    }
    assert!(!is_valid_request_id(&"x".repeat(65)));
}

#[test]
fn chats_are_admitted_once_and_end() {
    let mut state: AiPassState<u32> = AiPassState::new();
    assert_eq!(state.begin("", "", 0), Err(AiPassError::ChatTooLarge));
    assert_eq!(state.begin("{}", "", 0), Err(AiPassError::ChatInvalid));
    assert_eq!(state.begin(BODY, "", 0), Err(AiPassError::RequestIdInvalid));
    assert_eq!(cancel_all_chat(&state), Vec::<&u32>::new());
    for i in 0..16 {
        assert_eq!(state.begin(BODY, &format!("id-{i}"), i), Ok(()));
    }
    assert_eq!(state.begin(BODY, "id-3", 99), Err(AiPassError::RequestIdActive));
    assert_eq!(state.begin(BODY, "id-16", 99), Err(AiPassError::TooManyRequests));
    assert_eq!(aipass_cancel_chat("id-3", &state), Ok(Some(&3)));
    state.finish("id-3");
    assert_eq!(aipass_cancel_chat("id-3", &state), Ok(None));
    assert_eq!(aipass_cancel_chat("id-4", &state), Ok(Some(&4)));
    assert_eq!(cancel_all_chat(&state).len(), 15);
    state.finish("id-3");
    assert_eq!(cancel_all_chat(&state).len(), 15);
    assert_eq!(state.begin(BODY, "id-3", 33), Ok(()));
    assert_eq!(aipass_cancel_chat("id-3", &state), Ok(Some(&33)));
}

#[test]
fn judged_chats_are_admitted_alike() {
    let mut state: AiPassState<&str> = AiPassState::new();
    let refused = state.begin_judged(Err(AiPassError::ChatInvalid), "id", "handle");
    assert_eq!(refused, Err(AiPassError::ChatInvalid));
    assert_eq!(state.begin_judged(Ok(()), "id", "handle"), Ok(()));
    assert_eq!(cancel_all_chat(&state), vec![&"handle"]);
}

#[test]
fn cancelling_needs_an_identifier_that_can_be_one() {
    let state: AiPassState<u32> = AiPassState::new();
    assert_eq!(aipass_cancel_chat("", &state), Ok(None));
    assert_eq!(aipass_cancel_chat(&"x".repeat(64), &state), Ok(None));
    assert_eq!(
        aipass_cancel_chat(&"x".repeat(65), &state),
        Err(AiPassError::RequestIdInvalid)
    );
}
