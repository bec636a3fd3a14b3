//! The browser's return: the request that carries the outcome of an authorization, the page that
//! answers it, and the wait for it.
use crate::address::{read_url, url_of, UrlParts, UrlView};
use crate::error::{viewed, AiPassError};
use crate::form::pair_texts;
use crate::limits::MAX_CALLBACK_BYTES;
use crate::secrets::constant_time_eq;
use crate::text::{
    blank_parts_words, bounded, bounds_count_bytes, byte_len, decimal, first_line,
    first_line_ends_at_line_feed, get_first_line, is_bounded, occurs, occurs_at, split_words,
    str_eq, text_without_blanks_is_one_word, texts, to_decimal, white_space, words, Blanks,
};
use vstd::prelude::*;
use vstd::string::*;
use vstd::utf8::*;

verus! {

/// The number of bytes that an authorization code may have.
pub const MAX_CODE_BYTES: usize = 4096;

/// The number of bytes that the name of an authorization error may have.
pub const MAX_CALLBACK_ERROR_BYTES: usize = 256;

/// The outcome of an authorization.
#[derive(Debug, PartialEq, Eq)]
pub enum Callback {
    /// The user approved; the code can be turned into tokens.
    Code(String),
    /// The service reports an error.
    Error(String),
}

/// The outcome of an authorization as mathematics.
pub enum CallbackView {
    Code(Seq<char>),
    Error(Seq<char>),
}

impl View for Callback {
    type V = CallbackView;

    open spec fn view(&self) -> CallbackView {
        match self {
            Callback::Code(code) => CallbackView::Code(code@),
            Callback::Error(error) => CallbackView::Error(error@),
        }
    }
}

/// The target of a request line: the middle one of its three words, where the first is `GET`, the
/// last names the protocol, and the middle one starts with a slash.
pub open spec fn request_target(line: Seq<char>) -> Option<Seq<char>> {
    let parts = words(line, Blanks::Unicode);
    if parts.len() == 3 && parts[0] == "GET"@ && (parts[2] == "HTTP/1.0"@ || parts[2]
        == "HTTP/1.1"@) && parts[1].len() > 0 && parts[1][0] == '/' {
        Some(parts[1])
    } else {
        None
    }
}

/// The address that a request asks for, if it is a request that can be read.
pub open spec fn request_address(request: Seq<char>) -> Option<Seq<char>> {
    match first_line(request) {
        Some(line) => match request_target(line) {
            Some(target) => Some("http://127.0.0.1"@ + target),
            None => None,
        },
        None => None,
    }
}

/// The values of the pairs named `name`, in order.
pub open spec fn values_of(pairs: Seq<(Seq<char>, Seq<char>)>, name: Seq<char>) -> Seq<Seq<char>>
    decreases pairs.len(),
{
    if pairs.len() == 0 {
        seq![]
    } else {
        let before = values_of(pairs.drop_last(), name);
        if pairs.last().0 == name {
            before.push(pairs.last().1)
        } else {
            before
        }
    }
}

/// What a return to the address means. There must be exactly one state, and it must be the
/// expected one; then exactly one code and no error, or exactly one error and no code.
pub open spec fn callback_at(url: UrlView, expected_state: Seq<char>) -> Result<
    CallbackView,
    AiPassError,
> {
    let states = values_of(url.pairs, "state"@);
    let codes = values_of(url.pairs, "code"@);
    let errors = values_of(url.pairs, "error"@);
    if url.path != "/oauth/callback"@ {
        Err(AiPassError::CallbackPathInvalid)
    } else if states != seq![expected_state] {
        Err(AiPassError::CallbackStateMismatch)
    } else if codes.len() == 1 && errors.len() == 0 && bounded(codes[0], MAX_CODE_BYTES) {
        Ok(CallbackView::Code(codes[0]))
    } else if codes.len() == 0 && errors.len() == 1 && bounded(errors[0], MAX_CALLBACK_ERROR_BYTES) {
        Ok(CallbackView::Error(errors[0]))
    } else {
        Err(AiPassError::CallbackResponseInvalid)
    }
}

/// What a request means.
pub open spec fn callback_of(request: Seq<char>, expected_state: Seq<char>) -> Result<
    CallbackView,
    AiPassError,
> {
    if encode_utf8(request).len() > MAX_CALLBACK_BYTES {
        Err(AiPassError::CallbackTooLarge)
    } else {
        match request_address(request) {
            None => Err(AiPassError::CallbackInvalid),
            Some(address) => match url_of(address) {
                None => Err(AiPassError::CallbackInvalid),
                Some(url) => callback_at(url, expected_state),
            },
        }
    }
}

fn starts_with_slash(s: &str) -> (r: bool)
    ensures
        r == (s@.len() > 0 && s@[0] == '/'),
{
    s.unicode_len() > 0 && s.get_char(0) == '/'
}

/// The address that a request asks for, if it is a request that can be read.
pub fn get_request_address(request: &str) -> (r: Option<String>)
    ensures
        r is Some <==> request_address(request@) is Some,
        r matches Some(address) ==> address@ == request_address(request@)->0,
{
    let line = match get_first_line(request) {
        Some(line) => line,
        None => {
            return None;
        },
    };
    let parts = split_words(line.as_str(), Blanks::Unicode);
    let ghost list = words(line@, Blanks::Unicode);
    assert(texts(parts@) == list);
    if parts.len() != 3 {
        return None;
    }
    assert(list[0] == parts@[0]@ && list[1] == parts@[1]@ && list[2] == parts@[2]@);
    if !str_eq(parts[0].as_str(), "GET") || !(str_eq(parts[2].as_str(), "HTTP/1.0") || str_eq(
        parts[2].as_str(),
        "HTTP/1.1",
    )) || !starts_with_slash(parts[1].as_str()) {
        return None;
    }
    let mut address = "http://127.0.0.1".to_owned();
    address.append(parts[1].as_str());
    Some(address)
}

/// The values of the pairs named `name`, in order.
fn get_values(pairs: &Vec<(String, String)>, name: &str) -> (r: Vec<String>)
    ensures
        texts(r@) == values_of(pair_texts(pairs@), name@),
{
    let ghost all = pair_texts(pairs@);
    let mut out: Vec<String> = Vec::new();
    let mut i: usize = 0;
    while i < pairs.len()
        invariant
            i <= pairs.len(),
            all == pair_texts(pairs@),
            texts(out@) == values_of(all.take(i as int), name@),
        decreases pairs.len() - i,
    {
        assert(all.take(i + 1).drop_last() =~= all.take(i as int));
        assert(all.take(i + 1).last() == all[i as int]);
        if str_eq(pairs[i].0.as_str(), name) {
            let ghost before = out@;
            out.push(pairs[i].1.clone());
            assert(texts(out@) =~= texts(before).push(pairs@[i as int].1@));
        }
        i = i + 1;
    }
    assert(all.take(i as int) =~= all);
    out
}

/// What a return to the address means.
pub fn judge_callback(url: &UrlParts, expected_state: &str) -> (r: Result<Callback, AiPassError>)
    ensures
        viewed(r) == callback_at(url@, expected_state@),
{
    if !str_eq(url.path.as_str(), "/oauth/callback") {
        return Err(AiPassError::CallbackPathInvalid);
    }
    let mut states = get_values(&url.pairs, "state");
    let mut codes = get_values(&url.pairs, "code");
    let mut errors = get_values(&url.pairs, "error");
    let ghost (s, c, e) = (texts(states@), texts(codes@), texts(errors@));
    if states.len() != 1 {
        assert(s.len() != seq![expected_state@].len());
        return Err(AiPassError::CallbackStateMismatch);
    }
    assert(s[0] == states@[0]@);
    if !constant_time_eq(states[0].as_str(), expected_state) {
        return Err(AiPassError::CallbackStateMismatch);
    }
    assert(s =~= seq![expected_state@]);
    if codes.len() == 1 && errors.len() == 0 {
        assert(c[0] == codes@[0]@);
        if is_bounded(codes[0].as_str(), MAX_CODE_BYTES) {
            return Ok(Callback::Code(codes.remove(0)));
        }
    } else if codes.len() == 0 && errors.len() == 1 {
        assert(e[0] == errors@[0]@);
        if is_bounded(errors[0].as_str(), MAX_CALLBACK_ERROR_BYTES) {
            return Ok(Callback::Error(errors.remove(0)));
        }
    }
    Err(AiPassError::CallbackResponseInvalid)
}

/// What a request means, for an authorization that was begun with `expected_state`.
pub fn parse_callback_request(request: &str, expected_state: &str) -> (r: Result<
    Callback,
    AiPassError,
>)
    ensures
        viewed(r) == callback_of(request@, expected_state@),
{
    if byte_len(request) > MAX_CALLBACK_BYTES {
        return Err(AiPassError::CallbackTooLarge);
    }
    match get_request_address(request) {
        None => Err(AiPassError::CallbackInvalid),
        Some(address) => match read_url(address.as_str()) {
            None => Err(AiPassError::CallbackInvalid),
            Some(url) => judge_callback(&url, expected_state),
        },
    }
}

/// A request is accepted only with the expected state, given exactly once, at the exact path; and
/// what is taken from it is bounded.
pub proof fn accepted_callback_has_expected_state(request: Seq<char>, expected_state: Seq<char>)
    ensures
        callback_of(request, expected_state) matches Ok(callback) ==> {
            &&& url_of(request_address(request)->0) matches Some(url)
            &&& url.path == "/oauth/callback"@
            &&& values_of(url.pairs, "state"@) == seq![expected_state]
            &&& match callback {
                CallbackView::Code(code) => bounded(code, MAX_CODE_BYTES),
                CallbackView::Error(error) => bounded(error, MAX_CALLBACK_ERROR_BYTES),
            }
        },
{
}

/// A request that is accepted for one state is refused for every other one.
pub proof fn other_states_are_refused(request: Seq<char>, state: Seq<char>, other: Seq<char>)
    requires
        callback_of(request, state) is Ok,
        other != state,
    ensures
        callback_of(request, other) == Err::<CallbackView, AiPassError>(
            AiPassError::CallbackStateMismatch,
        ),
{
    assert(seq![state][0] != seq![other][0]);
}

/// The blank line that ends the head of a request.
pub open spec fn head_end() -> Seq<u8> {
    seq![13u8, 10u8, 13u8, 10u8]
}

/// What happens while a request is read.
pub enum ReadEvent {
    TimedOut,
    Failed,
    /// Bytes that came in; none at the end of the stream.
    Data(Vec<u8>),
}

/// A request that is being read.
pub struct CallbackReader {
    pub bytes: Vec<u8>,
}

/// What follows from an event while a request is read.
pub enum ReadStep {
    /// Read on.
    More(CallbackReader),
    Done(Result<String, AiPassError>),
}

/// What follows from an event while a request is read, as mathematics.
pub enum ReadStepView {
    More(Seq<u8>),
    Done(Result<Seq<char>, AiPassError>),
}

impl View for ReadStep {
    type V = ReadStepView;

    open spec fn view(&self) -> ReadStepView {
        match self {
            ReadStep::More(reader) => ReadStepView::More(reader.bytes@),
            ReadStep::Done(r) => ReadStepView::Done(viewed(*r)),
        }
    }
}

/// The text of a request.
pub open spec fn request_text(bytes: Seq<u8>) -> Result<Seq<char>, AiPassError> {
    if valid_utf8(bytes) {
        Ok(decode_utf8(bytes))
    } else {
        Err(AiPassError::CallbackInvalid)
    }
}

/// What follows from an event when `bytes` have been read: reading ends with the stream, with the
/// head of the request, or with a failure.
pub open spec fn read_step(bytes: Seq<u8>, event: ReadEvent) -> ReadStepView {
    match event {
        ReadEvent::TimedOut => ReadStepView::Done(Err(AiPassError::CallbackRequestTimedOut)),
        ReadEvent::Failed => ReadStepView::Done(Err(AiPassError::CallbackUnreadable)),
        ReadEvent::Data(chunk) => {
            let all = bytes + chunk@;
            if chunk@.len() == 0 {
                ReadStepView::Done(request_text(bytes))
            } else if all.len() > MAX_CALLBACK_BYTES {
                ReadStepView::Done(Err(AiPassError::CallbackTooLarge))
            } else if occurs(all, head_end()) {
                ReadStepView::Done(request_text(all))
            } else {
                ReadStepView::More(all)
            }
        },
    }
}

/// Wraps `String::from_utf8`. Claimed: it succeeds on valid UTF-8 alone, and the bytes are then
/// the encoding of the text.
#[verifier::external_body]
fn utf8_text(bytes: Vec<u8>) -> (r: Option<String>)
    ensures
        r is Some <==> valid_utf8(bytes@),
        r matches Some(text) ==> encode_utf8(text@) == bytes@,
{
    String::from_utf8(bytes).ok()
}

fn get_request_text(bytes: Vec<u8>) -> (r: Result<String, AiPassError>)
    ensures
        viewed(r) == request_text(bytes@),
{
    match utf8_text(bytes) {
        Some(text) => {
            proof {
                encode_utf8_decode_utf8(text@);
            }
            Ok(text)
        },
        None => Err(AiPassError::CallbackInvalid),
    }
}

/// Whether the bytes hold the end of the head of a request.
fn has_head_end(bytes: &Vec<u8>) -> (r: bool)
    ensures
        r == occurs(bytes@, head_end()),
{
    if bytes.len() < 4 {
        return false;
    }
    let mut i: usize = 0;
    while i <= bytes.len() - 4
        invariant
            4 <= bytes.len(),
            i <= bytes.len() - 3,
            forall|k: int| 0 <= k < i ==> !occurs_at(bytes@, head_end(), k),
        decreases bytes.len() - i,
    {
        let ghost window = bytes@.subrange(i as int, i + 4);
        if bytes[i] == 13 && bytes[i + 1] == 10 && bytes[i + 2] == 13 && bytes[i + 3] == 10 {
            assert(window =~= head_end());
            assert(occurs_at(bytes@, head_end(), i as int));
            return true;
        }
        assert(!occurs_at(bytes@, head_end(), i as int)) by {
            assert(window[0] == bytes@[i as int] && window[1] == bytes@[i + 1] && window[2]
                == bytes@[i + 2] && window[3] == bytes@[i + 3]);
        }
        i = i + 1;
    }
    false
}

impl CallbackReader {
    /// Nothing read yet.
    pub fn new() -> (r: Self)
        ensures
            r.bytes@ == Seq::<u8>::empty(),
    {
        CallbackReader { bytes: Vec::new() }
    }

    /// Takes an event.
    pub fn step(self, event: ReadEvent) -> (r: ReadStep)
        ensures
            r@ == read_step(self.bytes@, event),
    {
        match event {
            ReadEvent::TimedOut => ReadStep::Done(Err(AiPassError::CallbackRequestTimedOut)),
            ReadEvent::Failed => ReadStep::Done(Err(AiPassError::CallbackUnreadable)),
            ReadEvent::Data(chunk) => {
                let mut bytes = self.bytes;
                let mut chunk = chunk;
                if chunk.len() == 0 {
                    return ReadStep::Done(get_request_text(bytes));
                }
                if bytes.len().saturating_add(chunk.len()) > MAX_CALLBACK_BYTES {
                    return ReadStep::Done(Err(AiPassError::CallbackTooLarge));
                }
                bytes.append(&mut chunk);
                if has_head_end(&bytes) {
                    ReadStep::Done(get_request_text(bytes))
                } else {
                    ReadStep::More(CallbackReader { bytes })
                }
            },
        }
    }
}

/// The title of the page that the browser shows.
pub open spec fn page_title(success: bool) -> Seq<char> {
    if success {
        "Return to Parley"@
    } else {
        "Connection not completed"@
    }
}

/// The message on the page that the browser shows.
pub open spec fn page_message(success: bool) -> Seq<char> {
    if success {
        "Authorization was received. Return to Parley to finish connecting AI Pass."@
    } else {
        "Return to Parley and try connecting AI Pass again."@
    }
}

/// The page that the browser shows.
pub open spec fn page_body(success: bool) -> Seq<char> {
    "<!doctype html><meta charset=\"utf-8\"><meta name=\"viewport\" content=\"width=device-width\"><meta http-equiv=\"Content-Security-Policy\" content=\"default-src 'none'; style-src 'unsafe-inline'\"><title>"@
        + page_title(success)
        + "</title><body style=\"font-family:system-ui;padding:3rem;text-align:center\"><h1>"@
        + page_title(success) + "</h1><p>"@ + page_message(success) + "</p></body>"@
}

/// The answer to the browser: its status, the number of bytes of the page, and the page.
pub open spec fn page(success: bool) -> Seq<char> {
    "HTTP/1.1 "@ + (if success {
        "200 OK"@
    } else {
        "400 Bad Request"@
    }) + "\r\nContent-Type: text/html; charset=utf-8\r\nContent-Length: "@ + decimal(
        encode_utf8(page_body(success)).len(),
    ) + "\r\nCache-Control: no-store\r\nConnection: close\r\n\r\n"@ + page_body(success)
}

/// The answer to the browser.
pub fn callback_response(success: bool) -> (r: String)
    ensures
        r@ == page(success),
{
    let status = if success {
        "200 OK"
    } else {
        "400 Bad Request"
    };
    let title = if success {
        "Return to Parley"
    } else {
        "Connection not completed"
    };
    let message = if success {
        "Authorization was received. Return to Parley to finish connecting AI Pass."
    } else {
        "Return to Parley and try connecting AI Pass again."
    };
    let mut body =
        "<!doctype html><meta charset=\"utf-8\"><meta name=\"viewport\" content=\"width=device-width\"><meta http-equiv=\"Content-Security-Policy\" content=\"default-src 'none'; style-src 'unsafe-inline'\"><title>".to_owned();
    body.append(title);
    body.append(
        "</title><body style=\"font-family:system-ui;padding:3rem;text-align:center\"><h1>",
    );
    body.append(title);
    body.append("</h1><p>");
    body.append(message);
    body.append("</p></body>");
    let mut response = "HTTP/1.1 ".to_owned();
    response.append(status);
    response.append("\r\nContent-Type: text/html; charset=utf-8\r\nContent-Length: ");
    response.append(to_decimal(byte_len(body.as_str()) as u64).as_str());
    response.append("\r\nCache-Control: no-store\r\nConnection: close\r\n\r\n");
    response.append(body.as_str());
    response
}

/// What happens while the browser's return is waited for.
pub enum WaitEvent {
    TimedOut,
    ListenerFailed,
    /// Someone connected, from this machine or from elsewhere.
    Connected { loopback: bool },
    /// A request was read, or could not be.
    Request(Result<String, AiPassError>),
}

/// What follows from an event while the browser's return is waited for.
pub enum WaitStep {
    /// Read the request of the one who connected.
    Read,
    /// Answer that the connection is not completed, and wait on.
    Refuse,
    /// Answer, and end with the callback.
    Finish { success: bool, callback: Callback },
    Fail(AiPassError),
}

/// What follows from an event while the browser's return is waited for, as mathematics.
pub enum WaitStepView {
    Read,
    Refuse,
    Finish { success: bool, callback: CallbackView },
    Fail(AiPassError),
}

impl View for WaitStep {
    type V = WaitStepView;

    open spec fn view(&self) -> WaitStepView {
        match self {
            WaitStep::Read => WaitStepView::Read,
            WaitStep::Refuse => WaitStepView::Refuse,
            WaitStep::Finish { success, callback } => WaitStepView::Finish {
                success: *success,
                callback: callback@,
            },
            WaitStep::Fail(error) => WaitStepView::Fail(*error),
        }
    }
}

/// What follows from an event: only the time, a broken listener or a request that is accepted end
/// the wait; the browser is told of success only for a code.
pub open spec fn wait_step(event: WaitEvent, expected_state: Seq<char>) -> WaitStepView {
    match event {
        WaitEvent::TimedOut => WaitStepView::Fail(AiPassError::ConnectionTimedOut),
        WaitEvent::ListenerFailed => WaitStepView::Fail(AiPassError::CallbackListenerFailed),
        WaitEvent::Connected { loopback } => if loopback {
            WaitStepView::Read
        } else {
            WaitStepView::Refuse
        },
        WaitEvent::Request(Err(_)) => WaitStepView::Refuse,
        WaitEvent::Request(Ok(request)) => match callback_of(request@, expected_state) {
            Ok(callback) => WaitStepView::Finish { success: callback is Code, callback },
            Err(_) => WaitStepView::Refuse,
        },
    }
}

/// Decides what follows from an event while the browser's return is waited for.
pub fn decide_wait(event: WaitEvent, expected_state: &str) -> (r: WaitStep)
    ensures
        r@ == wait_step(event, expected_state@),
{
    match event {
        WaitEvent::TimedOut => WaitStep::Fail(AiPassError::ConnectionTimedOut),
        WaitEvent::ListenerFailed => WaitStep::Fail(AiPassError::CallbackListenerFailed),
        WaitEvent::Connected { loopback } => {
            if loopback {
                WaitStep::Read
            } else {
                WaitStep::Refuse
            }
        },
        WaitEvent::Request(Err(_)) => WaitStep::Refuse,
        WaitEvent::Request(Ok(request)) => match parse_callback_request(
            request.as_str(),
            expected_state,
        ) {
            Ok(callback) => {
                let success = match &callback {
                    Callback::Code(_) => true,
                    Callback::Error(_) => false,
                };
                WaitStep::Finish { success, callback }
            },
            Err(_) => WaitStep::Refuse,
        },
    }
}

/// How a wait ends in the course of some events, if it does.
pub open spec fn wait_outcome(events: Seq<WaitEvent>, expected_state: Seq<char>) -> Option<
    Result<CallbackView, AiPassError>,
>
    decreases events.len(),
{
    if events.len() == 0 {
        None
    } else {
        match wait_step(events[0], expected_state) {
            WaitStepView::Finish { callback, .. } => Some(Ok(callback)),
            WaitStepView::Fail(error) => Some(Err(error)),
            _ => wait_outcome(events.drop_first(), expected_state),
        }
    }
}

/// Whatever requests come in that are not accepted, the wait for the real one goes on: they have
/// no part in how it ends.
pub proof fn refused_requests_do_not_end_the_wait(
    refused: Seq<WaitEvent>,
    events: Seq<WaitEvent>,
    expected_state: Seq<char>,
)
    requires
        forall|i: int|
            0 <= i < refused.len() ==> match #[trigger] refused[i] {
                WaitEvent::Connected { .. } => true,
                WaitEvent::Request(Err(_)) => true,
                WaitEvent::Request(Ok(request)) => callback_of(request@, expected_state) is Err,
                _ => false,
            },
    ensures
        wait_outcome(refused + events, expected_state) == wait_outcome(events, expected_state),
    decreases refused.len(),
{
    if refused.len() == 0 {
        assert(refused + events =~= events);
    } else {
        let rest = refused.drop_first();
        assert((refused + events)[0] == refused[0]);
        assert((refused + events).drop_first() =~= rest + events);
        assert forall|i: int| 0 <= i < rest.len() implies match #[trigger] rest[i] {
            WaitEvent::Connected { .. } => true,
            WaitEvent::Request(Err(_)) => true,
            WaitEvent::Request(Ok(request)) => callback_of(request@, expected_state) is Err,
            _ => false,
        } by {
            assert(rest[i] == refused[i + 1]);
        }
        refused_requests_do_not_end_the_wait(rest, events, expected_state);
    }
}

/// A wait that ends with a callback has had a request that was accepted with it.
pub proof fn callback_comes_from_accepted_request(
    events: Seq<WaitEvent>,
    expected_state: Seq<char>,
)
    ensures
        wait_outcome(events, expected_state) matches Some(Ok(callback)) ==> exists|i: int|
            0 <= i < events.len() && match #[trigger] events[i] {
                WaitEvent::Request(Ok(request)) => callback_of(request@, expected_state) == Ok::<
                    CallbackView,
                    AiPassError,
                >(callback),
                _ => false,
            },
    decreases events.len(),
{
    if let Some(Ok(callback)) = wait_outcome(events, expected_state) {
        if !(wait_step(events[0], expected_state) is Finish) {
            let rest = events.drop_first();
            callback_comes_from_accepted_request(rest, expected_state);
            let i = choose|i: int|
                0 <= i < rest.len() && match #[trigger] rest[i] {
                    WaitEvent::Request(Ok(request)) => callback_of(request@, expected_state)
                        == Ok::<CallbackView, AiPassError>(callback),
                    _ => false,
                };
            assert(rest[i] == events[i + 1]);
        } else {
            assert(events[0] is Request);
        }
    }
}

proof fn absent_name_has_no_value(pairs: Seq<(Seq<char>, Seq<char>)>, name: Seq<char>)
    ensures
        values_of(pairs, name).len() == 0 <==> forall|i: int|
            0 <= i < pairs.len() ==> (#[trigger] pairs[i]).0 != name,
    decreases pairs.len(),
{
    if pairs.len() > 0 {
        let before = pairs.drop_last();
        absent_name_has_no_value(before, name);
        if forall|i: int| 0 <= i < pairs.len() ==> (#[trigger] pairs[i]).0 != name {
            assert forall|i: int| 0 <= i < before.len() implies (#[trigger] before[i]).0 != name by {
                assert(before[i] == pairs[i]);
            }
            assert(pairs[pairs.len() - 1].0 != name);
        }
        if values_of(pairs, name).len() == 0 {
            assert forall|i: int| 0 <= i < pairs.len() implies (#[trigger] pairs[i]).0 != name by {
                if i < before.len() {
                    assert(before[i] == pairs[i]);
                }
            }
        }
    }
}

/// The name is given at `at` and nowhere else.
pub open spec fn given_once_at(
    pairs: Seq<(Seq<char>, Seq<char>)>,
    name: Seq<char>,
    at: int,
) -> bool {
    &&& 0 <= at < pairs.len()
    &&& pairs[at].0 == name
    &&& forall|i: int| 0 <= i < pairs.len() && i != at ==> (#[trigger] pairs[i]).0 != name
}

/// The name is not given.
pub open spec fn not_given(pairs: Seq<(Seq<char>, Seq<char>)>, name: Seq<char>) -> bool {
    forall|i: int| 0 <= i < pairs.len() ==> (#[trigger] pairs[i]).0 != name
}

proof fn single_name_has_one_value(
    pairs: Seq<(Seq<char>, Seq<char>)>,
    name: Seq<char>,
    at: int,
)
    requires
        given_once_at(pairs, name, at),
    ensures
        values_of(pairs, name) == seq![pairs[at].1],
    decreases pairs.len(),
{
    let before = pairs.drop_last();
    if at == before.len() {
        assert forall|i: int| 0 <= i < before.len() implies (#[trigger] before[i]).0 != name by {
            assert(before[i] == pairs[i]);
        }
        absent_name_has_no_value(before, name);
        assert(values_of(pairs, name) =~= seq![pairs[at].1]);
    } else {
        assert(given_once_at(before, name, at)) by {
            assert(before[at] == pairs[at]);
            assert forall|i: int| 0 <= i < before.len() && i != at implies (#[trigger] before[i]).0
                != name by {
                assert(before[i] == pairs[i]);
            }
        }
        single_name_has_one_value(before, name, at);
        assert(pairs[pairs.len() - 1].0 != name);
    }
}

proof fn one_value_has_a_single_name(pairs: Seq<(Seq<char>, Seq<char>)>, name: Seq<char>)
    requires
        values_of(pairs, name).len() == 1,
    ensures
        exists|at: int| #[trigger]
            given_once_at(pairs, name, at) && pairs[at].1 == values_of(pairs, name)[0],
    decreases pairs.len(),
{
    let before = pairs.drop_last();
    let n = before.len() as int;
    if pairs.last().0 == name {
        absent_name_has_no_value(before, name);
        assert forall|i: int| 0 <= i < pairs.len() && i != n implies (#[trigger] pairs[i]).0
            != name by {
            assert(before[i] == pairs[i]);
        }
        assert(given_once_at(pairs, name, n));
    } else {
        one_value_has_a_single_name(before, name);
        let at = choose|at: int| #[trigger]
            given_once_at(before, name, at) && before[at].1 == values_of(before, name)[0];
        assert(pairs[at] == before[at]);
        assert forall|i: int| 0 <= i < pairs.len() && i != at implies (#[trigger] pairs[i]).0
            != name by {
            if i < n {
                assert(before[i] == pairs[i]);
            }
        }
        assert(given_once_at(pairs, name, at));
    }
}

proof fn other_pair_gives_no_value(
    before: Seq<(Seq<char>, Seq<char>)>,
    pair: (Seq<char>, Seq<char>),
    after: Seq<(Seq<char>, Seq<char>)>,
    name: Seq<char>,
)
    requires
        pair.0 != name,
    ensures
        values_of(before + seq![pair] + after, name) == values_of(before + after, name),
    decreases after.len(),
{
    let with = before + seq![pair] + after;
    let without = before + after;
    if after.len() == 0 {
        assert(with.drop_last() =~= before);
        assert(without =~= before);
        assert(with.last() == pair);
    } else {
        let shorter = after.drop_last();
        other_pair_gives_no_value(before, pair, shorter, name);
        assert(with.drop_last() =~= before + seq![pair] + shorter);
        assert(without.drop_last() =~= before + shorter);
        assert(with.last() == after.last());
        assert(without.last() == after.last());
    }
}

/// A parameter of the return that is none of `state`, `code` and `error` changes nothing, wherever
/// it stands.
pub proof fn further_parameters_change_nothing(
    url: UrlView,
    before: Seq<(Seq<char>, Seq<char>)>,
    pair: (Seq<char>, Seq<char>),
    after: Seq<(Seq<char>, Seq<char>)>,
    expected_state: Seq<char>,
)
    requires
        pair.0 != "state"@,
        pair.0 != "code"@,
        pair.0 != "error"@,
    ensures
        callback_at(UrlView { pairs: before + seq![pair] + after, ..url }, expected_state)
            == callback_at(UrlView { pairs: before + after, ..url }, expected_state),
{
    other_pair_gives_no_value(before, pair, after, "state"@);
    other_pair_gives_no_value(before, pair, after, "code"@);
    other_pair_gives_no_value(before, pair, after, "error"@);
}

/// A return with the expected state, one code and no error gives that code, and one with the
/// expected state, one error and no code gives that error, whatever other parameters there are and
/// whatever else the address holds.
pub proof fn real_return_is_accepted(url: UrlView, state_at: int, at: int)
    requires
        url.path == "/oauth/callback"@,
        given_once_at(url.pairs, "state"@, state_at),
    ensures
        given_once_at(url.pairs, "code"@, at) && not_given(url.pairs, "error"@) && 1
            <= encode_utf8(url.pairs[at].1).len() <= 4096 ==> callback_at(
            url,
            url.pairs[state_at].1,
        ) == Ok::<CallbackView, AiPassError>(CallbackView::Code(url.pairs[at].1)),
        given_once_at(url.pairs, "error"@, at) && not_given(url.pairs, "code"@) && 1
            <= encode_utf8(url.pairs[at].1).len() <= 256 ==> callback_at(
            url,
            url.pairs[state_at].1,
        ) == Ok::<CallbackView, AiPassError>(CallbackView::Error(url.pairs[at].1)),
{
    single_name_has_one_value(url.pairs, "state"@, state_at);
    if given_once_at(url.pairs, "code"@, at) {
        single_name_has_one_value(url.pairs, "code"@, at);
        absent_name_has_no_value(url.pairs, "error"@);
        bounds_count_bytes(url.pairs[at].1, MAX_CODE_BYTES);
    }
    if given_once_at(url.pairs, "error"@, at) {
        single_name_has_one_value(url.pairs, "error"@, at);
        absent_name_has_no_value(url.pairs, "code"@);
        bounds_count_bytes(url.pairs[at].1, MAX_CALLBACK_ERROR_BYTES);
    }
}

/// A return is refused for its path, for its state, or for what it brings, in this order, and is
/// accepted only if all of these are right.
pub proof fn return_is_refused_for_its_fault(url: UrlView, expected_state: Seq<char>)
    ensures
        ({
            let r = callback_at(url, expected_state);
            let right_path = url.path == "/oauth/callback"@;
            let right_state = exists|at: int| #[trigger]
                given_once_at(url.pairs, "state"@, at) && url.pairs[at].1 == expected_state;
            &&& r == Err::<CallbackView, AiPassError>(AiPassError::CallbackPathInvalid)
                <==> !right_path
            &&& r == Err::<CallbackView, AiPassError>(AiPassError::CallbackStateMismatch)
                <==> right_path && !right_state
            &&& r matches Ok(CallbackView::Code(code)) ==> right_path && right_state && not_given(
                url.pairs,
                "error"@,
            ) && 1 <= encode_utf8(code).len() <= 4096 && exists|at: int| #[trigger]
                given_once_at(url.pairs, "code"@, at) && url.pairs[at].1 == code
            &&& r matches Ok(CallbackView::Error(error)) ==> right_path && right_state && not_given(
                url.pairs,
                "code"@,
            ) && 1 <= encode_utf8(error).len() <= 256 && exists|at: int| #[trigger]
                given_once_at(url.pairs, "error"@, at) && url.pairs[at].1 == error
            &&& r matches Err(error) ==> error == AiPassError::CallbackPathInvalid || error
                == AiPassError::CallbackStateMismatch || error
                == AiPassError::CallbackResponseInvalid
        }),
{
    let states = values_of(url.pairs, "state"@);
    let codes = values_of(url.pairs, "code"@);
    let errors = values_of(url.pairs, "error"@);
    assert forall|at: int| #[trigger]
        given_once_at(url.pairs, "state"@, at) && url.pairs[at].1 == expected_state implies states
        == seq![expected_state] by {
        single_name_has_one_value(url.pairs, "state"@, at);
    }
    if states == seq![expected_state] {
        one_value_has_a_single_name(url.pairs, "state"@);
    }
    if codes.len() == 1 {
        one_value_has_a_single_name(url.pairs, "code"@);
        bounds_count_bytes(codes[0], MAX_CODE_BYTES);
    }
    if errors.len() == 1 {
        one_value_has_a_single_name(url.pairs, "error"@);
        bounds_count_bytes(errors[0], MAX_CALLBACK_ERROR_BYTES);
    }
    absent_name_has_no_value(url.pairs, "code"@);
    absent_name_has_no_value(url.pairs, "error"@);
}

proof fn three_words(a: Seq<char>, x: char, b: Seq<char>, y: char, c: Seq<char>)
    requires
        Blanks::Unicode.holds(x),
        Blanks::Unicode.holds(y),
        a.len() > 0,
        b.len() > 0,
        c.len() > 0,
        forall|i: int| 0 <= i < a.len() ==> !Blanks::Unicode.holds(#[trigger] a[i]),
        forall|i: int| 0 <= i < b.len() ==> !Blanks::Unicode.holds(#[trigger] b[i]),
        forall|i: int| 0 <= i < c.len() ==> !Blanks::Unicode.holds(#[trigger] c[i]),
    ensures
        words(a + seq![x] + b + seq![y] + c, Blanks::Unicode) == seq![a, b, c],
{
    text_without_blanks_is_one_word(a, Blanks::Unicode);
    text_without_blanks_is_one_word(b, Blanks::Unicode);
    text_without_blanks_is_one_word(c, Blanks::Unicode);
    blank_parts_words(b, y, c, Blanks::Unicode);
    blank_parts_words(a, x, b + seq![y] + c, Blanks::Unicode);
    assert(a + seq![x] + (b + seq![y] + c) =~= a + seq![x] + b + seq![y] + c);
    assert(seq![a] + (seq![b] + seq![c]) =~= seq![a, b, c]);
}

/// A request line of three words is read as method, target and version, whatever the target holds;
/// the method must be `GET`, the version that of the protocol, and the target must start with a
/// slash.
pub proof fn request_line_is_three_words(
    method: Seq<char>,
    first: char,
    target: Seq<char>,
    second: char,
    version: Seq<char>,
)
    requires
        white_space(first),
        white_space(second),
        method.len() > 0,
        target.len() > 0,
        version.len() > 0,
        forall|i: int| 0 <= i < method.len() ==> !white_space(#[trigger] method[i]),
        forall|i: int| 0 <= i < target.len() ==> !white_space(#[trigger] target[i]),
        forall|i: int| 0 <= i < version.len() ==> !white_space(#[trigger] version[i]),
    ensures
        request_target(method + seq![first] + target + seq![second] + version) == (if method
            == "GET"@ && (version == "HTTP/1.0"@ || version == "HTTP/1.1"@) && target[0] == '/' {
            Some(target)
        } else {
            None
        }),
{
    three_words(method, first, target, second, version);
}

/// A request is judged by its first line: by the address that its target names on this machine.
/// What follows the line has no part in it, as long as the request is not too large.
pub proof fn request_is_judged_by_its_target(
    first: char,
    target: Seq<char>,
    second: char,
    version: Seq<char>,
    rest: Seq<char>,
    expected_state: Seq<char>,
)
    requires
        white_space(first),
        white_space(second),
        first != '\n',
        second != '\n',
        version == "HTTP/1.0"@ || version == "HTTP/1.1"@,
        target.len() > 0,
        target[0] == '/',
        forall|i: int| 0 <= i < target.len() ==> !white_space(#[trigger] target[i]),
    ensures
        ({
            let line = "GET"@ + seq![first] + target + seq![second] + version;
            let request = line + seq!['\r', '\n'] + rest;
            &&& encode_utf8(request).len() > 8192 ==> callback_of(request, expected_state) == Err::<
                CallbackView,
                AiPassError,
            >(AiPassError::CallbackTooLarge)
            &&& encode_utf8(request).len() <= 8192 ==> callback_of(request, expected_state) == (
            match url_of("http://127.0.0.1"@ + target) {
                Some(url) => callback_at(url, expected_state),
                None => Err(AiPassError::CallbackInvalid),
            })
        }),
{
    reveal_strlit("GET");
    reveal_strlit("HTTP/1.0");
    reveal_strlit("HTTP/1.1");
    let line = "GET"@ + seq![first] + target + seq![second] + version;
    request_line_is_three_words("GET"@, first, target, second, version);
    assert forall|i: int| 0 <= i < line.len() implies #[trigger] line[i] != '\n' by {
        if 4 <= i < 4 + target.len() {
            assert(line[i] == target[i - 4]);
            assert(!white_space(target[i - 4]));
        }
    }
    first_line_ends_at_line_feed(line, rest);
}

/// How the reading of a request ends in the course of some events, if it does.
pub open spec fn reading_outcome(bytes: Seq<u8>, events: Seq<ReadEvent>) -> Option<
    Result<Seq<char>, AiPassError>,
>
    decreases events.len(),
{
    if events.len() == 0 {
        None
    } else {
        match read_step(bytes, events[0]) {
            ReadStepView::More(more) => reading_outcome(more, events.drop_first()),
            ReadStepView::Done(r) => Some(r),
        }
    }
}

/// The bytes hold an empty line, which ends the head of a request.
pub open spec fn holds_empty_line(bytes: Seq<u8>) -> bool {
    exists|at: int|
        0 <= at <= bytes.len() - 4 && #[trigger] bytes[at] == 13 && bytes[at + 1] == 10 && bytes[at
            + 2] == 13 && bytes[at + 3] == 10
}

proof fn empty_line_ends_head(bytes: Seq<u8>)
    ensures
        holds_empty_line(bytes) <==> occurs(bytes, head_end()),
{
    if holds_empty_line(bytes) {
        let at = choose|at: int|
            0 <= at <= bytes.len() - 4 && #[trigger] bytes[at] == 13 && bytes[at + 1] == 10
                && bytes[at + 2] == 13 && bytes[at + 3] == 10;
        assert(bytes.subrange(at, at + 4) =~= head_end());
        assert(occurs_at(bytes, head_end(), at));
    }
    if occurs(bytes, head_end()) {
        let at = choose|at: int| occurs_at(bytes, head_end(), at);
        let window = bytes.subrange(at, at + 4);
        assert(window[0] == bytes[at] && window[1] == bytes[at + 1] && window[2] == bytes[at + 2]
            && window[3] == bytes[at + 3]);
    }
}

/// However a request is cut into chunks, it is read up to the one that completes its head, or to
/// the end of the stream, and is then the text of all that was read; a request of more than 8192
/// bytes is refused.
pub proof fn request_is_read_whole(bytes: Seq<u8>, chunk: Vec<u8>, later: Seq<ReadEvent>)
    requires
        chunk@.len() > 0,
    ensures
        ({
            let all = bytes + chunk@;
            let r = reading_outcome(bytes, seq![ReadEvent::Data(chunk)] + later);
            &&& all.len() > 8192 ==> r == Some(
                Err::<Seq<char>, AiPassError>(AiPassError::CallbackTooLarge),
            )
            &&& all.len() <= 8192 && !holds_empty_line(all) ==> r == reading_outcome(all, later)
            &&& all.len() <= 8192 && holds_empty_line(all) && valid_utf8(all) ==> r == Some(
                Ok::<Seq<char>, AiPassError>(decode_utf8(all)),
            )
            &&& all.len() <= 8192 && holds_empty_line(all) && !valid_utf8(all) ==> r == Some(
                Err::<Seq<char>, AiPassError>(AiPassError::CallbackInvalid),
            )
        }),
{
    let events = seq![ReadEvent::Data(chunk)] + later;
    assert(events[0] == ReadEvent::Data(chunk));
    assert(events.drop_first() =~= later);
    empty_line_ends_head(bytes + chunk@);
}

/// At the end of the stream a request is what was read so far.
pub proof fn stream_end_ends_request(bytes: Seq<u8>, chunk: Vec<u8>, later: Seq<ReadEvent>)
    requires
        chunk@.len() == 0,
    ensures
        valid_utf8(bytes) ==> reading_outcome(bytes, seq![ReadEvent::Data(chunk)] + later) == Some(
            Ok::<Seq<char>, AiPassError>(decode_utf8(bytes)),
        ),
        !valid_utf8(bytes) ==> reading_outcome(bytes, seq![ReadEvent::Data(chunk)] + later) == Some(
            Err::<Seq<char>, AiPassError>(AiPassError::CallbackInvalid),
        ),
{
    let events = seq![ReadEvent::Data(chunk)] + later;
    assert(events[0] == ReadEvent::Data(chunk));
}

/// A request that is accepted ends the wait with what it means, after whatever came before it that
/// was not accepted; the browser is told of success exactly for a code.
pub proof fn accepted_request_ends_the_wait(
    request: String,
    later: Seq<WaitEvent>,
    expected_state: Seq<char>,
)
    ensures
        callback_of(request@, expected_state) matches Ok(callback) ==> {
            &&& wait_outcome(
                seq![WaitEvent::Request(Ok(request))] + later,
                expected_state,
            ) == Some(Ok::<CallbackView, AiPassError>(callback))
            &&& wait_step(WaitEvent::Request(Ok(request)), expected_state) == (
            WaitStepView::Finish {
                success: callback matches CallbackView::Code(_),
                callback,
            })
        },
        callback_of(request@, expected_state) is Err ==> wait_step(
            WaitEvent::Request(Ok(request)),
            expected_state,
        ) is Refuse,
{
    let events = seq![WaitEvent::Request(Ok(request))] + later;
    assert(events[0] == WaitEvent::Request(Ok(request)));
}

/// The page that the browser is shown comes behind a head that gives its status and its exact
/// length in bytes.
pub proof fn page_announces_its_length(success: bool)
    ensures
        exists|head: Seq<char>|
            page(success) == #[trigger] (head + "\r\nContent-Length: "@ + decimal(
                encode_utf8(page_body(success)).len(),
            ) + "\r\nCache-Control: no-store\r\nConnection: close\r\n\r\n"@ + page_body(success)),
        success ==> page(success).take(15) == "HTTP/1.1 200 OK"@,
        !success ==> page(success).take(24) == "HTTP/1.1 400 Bad Request"@,
{
    let status = if success {
        "200 OK"@
    } else {
        "400 Bad Request"@
    };
    reveal_strlit("HTTP/1.1 ");
    reveal_strlit("200 OK");
    reveal_strlit("400 Bad Request");
    reveal_strlit("HTTP/1.1 200 OK");
    reveal_strlit("HTTP/1.1 400 Bad Request");
    reveal_strlit("\r\nContent-Type: text/html; charset=utf-8\r\nContent-Length: ");
    reveal_strlit("\r\nContent-Type: text/html; charset=utf-8");
    reveal_strlit("\r\nContent-Length: ");
    let head = "HTTP/1.1 "@ + status + "\r\nContent-Type: text/html; charset=utf-8"@;
    assert("\r\nContent-Type: text/html; charset=utf-8\r\nContent-Length: "@
        =~= "\r\nContent-Type: text/html; charset=utf-8"@ + "\r\nContent-Length: "@);
    assert(page(success) =~= head + "\r\nContent-Length: "@ + decimal(
        encode_utf8(page_body(success)).len(),
    ) + "\r\nCache-Control: no-store\r\nConnection: close\r\n\r\n"@ + page_body(success));
    if success {
        assert(page(success).take(15) =~= "HTTP/1.1 200 OK"@);
    } else {
        assert(page(success).take(24) =~= "HTTP/1.1 400 Bad Request"@);
    }
}

/// The views of what a return means, and of the steps of reading and waiting, show all of them.
pub proof fn views_of_steps_show_all(
    code: String,
    reader: CallbackReader,
    text: String,
    error: AiPassError,
    success: bool,
    callback: Callback,
)
    ensures
        Callback::Code(code)@ == CallbackView::Code(code@),
        Callback::Error(code)@ == CallbackView::Error(code@),
        ReadStep::More(reader)@ == ReadStepView::More(reader.bytes@),
        ReadStep::Done(Ok(text))@ == ReadStepView::Done(Ok(text@)),
        ReadStep::Done(Err(error))@ == ReadStepView::Done(Err(error)),
        WaitStep::Read@ == WaitStepView::Read,
        WaitStep::Refuse@ == WaitStepView::Refuse,
        (WaitStep::Finish { success, callback })@ == (WaitStepView::Finish {
            success,
            callback: callback@,
        }),
        WaitStep::Fail(error)@ == WaitStepView::Fail(error),
{
}

/// Reading ends with a failure that happens, however much was read before.
pub proof fn reading_fails_as_it_came(bytes: Seq<u8>)
    ensures
        read_step(bytes, ReadEvent::TimedOut) == ReadStepView::Done(
            Err(AiPassError::CallbackRequestTimedOut),
        ),
        read_step(bytes, ReadEvent::Failed) == ReadStepView::Done(
            Err(AiPassError::CallbackUnreadable),
        ),
{
}

/// Whoever connects from this machine is read, and no one else; and the wait fails when its time is
/// over or the listener breaks, whatever state is expected.
pub proof fn wait_reads_this_machine_alone(expected_state: Seq<char>, error: AiPassError)
    ensures
        wait_step(WaitEvent::Connected { loopback: true }, expected_state) is Read,
        wait_step(WaitEvent::Connected { loopback: false }, expected_state) is Refuse,
        wait_step(WaitEvent::Request(Err(error)), expected_state) is Refuse,
        wait_step(WaitEvent::TimedOut, expected_state) == WaitStepView::Fail(
            AiPassError::ConnectionTimedOut,
        ),
        wait_step(WaitEvent::ListenerFailed, expected_state) == WaitStepView::Fail(
            AiPassError::CallbackListenerFailed,
        ),
{
}

} // verus!
