use aipass::address::{read_url, UrlParts};
use aipass::callback::{
    callback_response, decide_wait, get_request_address, judge_callback, parse_callback_request,
    Callback, CallbackReader, ReadEvent, ReadStep, WaitEvent, WaitStep,
};
use aipass::error::AiPassError;

#[test]
fn callback_requires_exact_path_and_matching_state() {
    let request =
        "GET /oauth/callback?code=auth-code&state=expected HTTP/1.1\r\nHost: 127.0.0.1\r\n\r\n";
    assert_eq!(
        parse_callback_request(request, "expected").expect("valid callback"),
        Callback::Code("auth-code".into())
    );

    assert!(parse_callback_request(
        "GET /other?code=auth-code&state=expected HTTP/1.1\r\n\r\n",
        "expected"
    )
    .is_err());
    assert!(parse_callback_request(
        "GET /oauth/callback?code=auth-code&state=wrong HTTP/1.1\r\n\r\n",
        "expected"
    )
    .is_err());
}

fn with_target(target: &str) -> Result<Callback, AiPassError> {
    parse_callback_request(&format!("GET {target} HTTP/1.1\r\n\r\n"), "s")
}

#[test]
fn callback_failures_have_their_reasons() {
    let large = format!("GET /oauth/callback?code=c&state=s&x={} HTTP/1.1", "x".repeat(8192));
    assert_eq!(parse_callback_request(&large, "s"), Err(AiPassError::CallbackTooLarge));
    for request in [
        "",
        "\n",
        "POST /oauth/callback?code=c&state=s HTTP/1.1\r\n",
        "get /oauth/callback?code=c&state=s HTTP/1.1\r\n",
        "GET /oauth/callback?code=c&state=s HTTP/2\r\n",
        "GET /oauth/callback?code=c&state=s\r\n",
        "GET oauth/callback?code=c&state=s HTTP/1.1\r\n",
        "GET /oauth/callback?code=c&state=s HTTP/1.1 more\r\n",
        "\r\nGET /oauth/callback?code=c&state=s HTTP/1.1\r\n",
        "GET /oauth/\u{3000}callback?code=c&state=s HTTP/1.1\r\n",
    ] {
        assert_eq!(
            parse_callback_request(request, "s"),
            Err(AiPassError::CallbackInvalid),
            "{request:?}"
        );
    }
    assert_eq!(with_target("/"), Err(AiPassError::CallbackPathInvalid));
    assert_eq!(with_target("/oauth/callback/?code=c&state=s"), Err(AiPassError::CallbackPathInvalid));
    for target in [
        "/oauth/callback",
        "/oauth/callback?code=c",
        "/oauth/callback?code=c&state=",
        "/oauth/callback?code=c&state=s&state=s",
        "/oauth/callback?code=c&State=s",
    ] {
        assert_eq!(with_target(target), Err(AiPassError::CallbackStateMismatch), "{target}");
    }
    let long_code = format!("/oauth/callback?state=s&code={}", "c".repeat(4097));
    let long_error = format!("/oauth/callback?state=s&error={}", "e".repeat(257));
    for target in [
        "/oauth/callback?state=s",
        "/oauth/callback?state=s&code=",
        "/oauth/callback?state=s&error=",
        "/oauth/callback?state=s&code=a&code=b",
        "/oauth/callback?state=s&error=a&error=b",
        "/oauth/callback?state=s&code=a&error=b",
        long_code.as_str(),
        long_error.as_str(),
    ] {
        assert_eq!(with_target(target), Err(AiPassError::CallbackResponseInvalid), "{target}");
    }
}

#[test]
fn callback_gives_code_or_error() {
    let code = "c".repeat(4096);
    assert_eq!(
        with_target(&format!("/oauth/callback?state=s&code={code}")),
        Ok(Callback::Code(code))
    );
    let error = "e".repeat(256);
    assert_eq!(
        with_target(&format!("/oauth/callback?error={error}&state=s&other=1")),
        Ok(Callback::Error(error))
    );
    assert_eq!(with_target("/oauth/callback?state=s&code=a%2Bb+c"), Ok(Callback::Code("a+b c".into())));
    assert_eq!(with_target("/x/../oauth/callback?state=s&code=a"), Ok(Callback::Code("a".into())));
    assert_eq!(
        parse_callback_request("GET\t/oauth/callback?state=s&code=a  HTTP/1.0", "s"),
        Ok(Callback::Code("a".into()))
    );
}

#[test]
fn a_request_is_accepted_for_one_state_alone() {
    let request = "GET /oauth/callback?code=c&state=one HTTP/1.1\r\n\r\n";
    assert_eq!(parse_callback_request(request, "one"), Ok(Callback::Code("c".into())));
    for other in ["", "two", "onE", "one "] {
        assert_eq!(
            parse_callback_request(request, other),
            Err(AiPassError::CallbackStateMismatch)
        );
    }
}

#[test]
fn request_address_is_local() {
    assert_eq!(
        get_request_address("GET //other.example/ HTTP/1.1\n").as_deref(),
        Some("http://127.0.0.1//other.example/")
    );
    assert_eq!(get_request_address("GET / HTTP/1.1 \r").as_deref(), Some("http://127.0.0.1/"));
    assert_eq!(get_request_address("HEAD / HTTP/1.1\n"), None);
}

#[test]
fn a_return_is_judged_by_its_parts() {
    let url = read_url("http://127.0.0.1/oauth/callback?code=c&state=s").expect("url");
    assert_eq!(judge_callback(&url, "s"), Ok(Callback::Code("c".into())));
    let elsewhere = UrlParts { path: "/oauth/callback2".into(), ..url };
    assert_eq!(judge_callback(&elsewhere, "s"), Err(AiPassError::CallbackPathInvalid));
}

fn finished(step: ReadStep) -> Result<String, AiPassError> {
    match step {
        ReadStep::Done(result) => result,
        ReadStep::More(_) => panic!("still reading"),
    }
}

fn reading(step: ReadStep) -> CallbackReader {
    match step {
        ReadStep::More(reader) => reader,
        ReadStep::Done(_) => panic!("done"),
    }
}

#[test]
fn request_is_read_up_to_its_head() {
    let reader = reading(CallbackReader::new().step(ReadEvent::Data(b"GET / HTTP/1.1\r\n\r".to_vec())));
    assert_eq!(reader.bytes, b"GET / HTTP/1.1\r\n\r");
    assert_eq!(
        finished(reader.step(ReadEvent::Data(b"\nbody".to_vec()))),
        Ok("GET / HTTP/1.1\r\n\r\nbody".to_string())
    );
    let reader = reading(CallbackReader::new().step(ReadEvent::Data(b"abc".to_vec())));
    assert_eq!(finished(reader.step(ReadEvent::Data(Vec::new()))), Ok("abc".to_string()));
    assert_eq!(finished(CallbackReader::new().step(ReadEvent::Data(Vec::new()))), Ok(String::new()));
}

#[test]
fn request_reading_fails_with_its_reason() {
    assert_eq!(
        finished(CallbackReader::new().step(ReadEvent::TimedOut)),
        Err(AiPassError::CallbackRequestTimedOut)
    );
    assert_eq!(
        finished(CallbackReader::new().step(ReadEvent::Failed)),
        Err(AiPassError::CallbackUnreadable)
    );
    let reader = reading(CallbackReader::new().step(ReadEvent::Data(vec![b'a'; 8192])));
    assert_eq!(
        finished(reader.step(ReadEvent::Data(vec![b'a']))),
        Err(AiPassError::CallbackTooLarge)
    );
    let reader = reading(CallbackReader::new().step(ReadEvent::Data(vec![0xff, 0xfe])));
    assert_eq!(
        finished(reader.step(ReadEvent::Data(Vec::new()))),
        Err(AiPassError::CallbackInvalid)
    );
}

#[test]
fn pages_announce_their_length() {
    let page = callback_response(true);
    let (head, body) = page.split_once("\r\n\r\n").expect("head and body");
    assert_eq!(
        head,
        format!(
            "HTTP/1.1 200 OK\r\nContent-Type: text/html; charset=utf-8\r\nContent-Length: {}\r\n\
             Cache-Control: no-store\r\nConnection: close",
            body.len()
        )
    );
    assert_eq!(
        body,
        "<!doctype html><meta charset=\"utf-8\"><meta name=\"viewport\" content=\"width=device-width\">\
         <meta http-equiv=\"Content-Security-Policy\" content=\"default-src 'none'; style-src 'unsafe-inline'\">\
         <title>Return to Parley</title><body style=\"font-family:system-ui;padding:3rem;text-align:center\">\
         <h1>Return to Parley</h1><p>Authorization was received. Return to Parley to finish connecting AI Pass.</p></body>"
    );
    let page = callback_response(false);
    assert!(page.starts_with("HTTP/1.1 400 Bad Request\r\n"));
    assert!(page.ends_with(
        "<h1>Connection not completed</h1><p>Return to Parley and try connecting AI Pass again.</p></body>"
    ));
}

#[test]
fn the_wait_ends_with_the_real_return() {
    assert!(matches!(
        decide_wait(WaitEvent::TimedOut, "s"),
        WaitStep::Fail(AiPassError::ConnectionTimedOut)
    ));
    assert!(matches!(
        decide_wait(WaitEvent::ListenerFailed, "s"),
        WaitStep::Fail(AiPassError::CallbackListenerFailed)
    ));
    assert!(matches!(decide_wait(WaitEvent::Connected { loopback: true }, "s"), WaitStep::Read));
    assert!(matches!(decide_wait(WaitEvent::Connected { loopback: false }, "s"), WaitStep::Refuse));
    assert!(matches!(
        decide_wait(WaitEvent::Request(Err(AiPassError::CallbackInvalid)), "s"),
        WaitStep::Refuse
    ));
    let forged = "GET /oauth/callback?code=c&state=forged HTTP/1.1\r\n\r\n".to_string();
    assert!(matches!(decide_wait(WaitEvent::Request(Ok(forged)), "s"), WaitStep::Refuse));
    let approved = "GET /oauth/callback?code=c&state=s HTTP/1.1\r\n\r\n".to_string();
    match decide_wait(WaitEvent::Request(Ok(approved)), "s") {
        WaitStep::Finish { success, callback } => {
            assert!(success);
            assert_eq!(callback, Callback::Code("c".into()));
        }
        _ => panic!("not finished"),
    }
    let denied = "GET /oauth/callback?error=access_denied&state=s HTTP/1.1\r\n\r\n".to_string();
    match decide_wait(WaitEvent::Request(Ok(denied)), "s") {
        WaitStep::Finish { success, callback } => {
            assert!(!success);
            assert_eq!(callback, Callback::Error("access_denied".into()));
        }
        _ => panic!("not finished"),
    }
}
