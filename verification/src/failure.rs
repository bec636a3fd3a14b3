//! What a consumer is told when the service refuses a chat: never anything that could hold a
//! credential.
use crate::encoding::{base64_len, base64_standard, encode_standard, standard_form_reads_back};
use crate::error::AiPassError;
use crate::json::{
    json_bytes, json_document, member_names, member_views, members_are_found_by_name, ordered,
    ordered_names_are_distinct, parse_json, plain, precedes_at, values_are_taken_for_what_they_are,
    view_of_parts, write_json, written_depth, Json, JsonView,
};
use crate::text::{
    ascii_lower, ascii_lowered, byte_len, contains_text, control, decimal, is_control, occurs,
    occurs_at, split_words, texts, to_ascii_lowered, to_chars, to_decimal, to_text, words, Blanks,
};
use crate::transfer::{carried, message_views, StreamMessage, StreamView};
use vstd::prelude::*;
use vstd::string::*;
use vstd::utf8::*;

verus! {

/// The number of characters that are kept of a message.
pub const MAX_MESSAGE_CHARS: usize = 512;

/// A word of ASCII characters that is longer than this may be a credential.
pub const MAX_WORD_BYTES: usize = 128;

/// The message that a refusal gives, if it gives one.
pub open spec fn upstream_message(value: JsonView) -> Option<Seq<char>> {
    let nested = match value.get("error"@) {
        Some(error) => error.text_at("message"@),
        None => None,
    };
    match nested {
        Some(message) => Some(message),
        None => value.text_at("message"@),
    }
}

/// The characters that are no control characters.
pub open spec fn visible(s: Seq<char>) -> Seq<char>
    decreases s.len(),
{
    if s.len() == 0 {
        seq![]
    } else if control(s.last()) {
        visible(s.drop_last())
    } else {
        visible(s.drop_last()).push(s.last())
    }
}

/// What is kept of a message: its first characters that are no control characters.
pub open spec fn cleaned(message: Seq<char>) -> Seq<char> {
    if visible(message).len() <= MAX_MESSAGE_CHARS {
        visible(message)
    } else {
        visible(message).take(MAX_MESSAGE_CHARS as int)
    }
}

/// The message names a credential, in whatever case.
pub open spec fn names_credential(message: Seq<char>) -> bool {
    let lowered = ascii_lowered(message);
    ||| occurs(lowered, "authorization"@)
    ||| occurs(lowered, "bearer "@)
    ||| occurs(lowered, "access_token"@)
    ||| occurs(lowered, "refresh_token"@)
}

/// The word may be a credential: it is ASCII and long.
pub open spec fn suspicious(word: Seq<char>) -> bool {
    encode_utf8(word).len() > MAX_WORD_BYTES && is_ascii_chars(word)
}

/// The message may be shown.
pub open spec fn harmless(message: Seq<char>) -> bool {
    &&& message.len() > 0
    &&& !names_credential(message)
    &&& forall|i: int|
        0 <= i < words(message, Blanks::Unicode).len() ==> !suspicious(
            #[trigger] words(message, Blanks::Unicode)[i],
        )
}

/// What is shown where nothing of the refusal may be.
pub open spec fn plain_refusal(status: u16) -> Seq<char> {
    "AI Pass request failed ("@ + decimal(status as nat) + ")"@
}

/// What is shown of a refusal.
pub open spec fn shown_message(value: JsonView, status: u16) -> Seq<char> {
    match upstream_message(value) {
        Some(message) => if harmless(cleaned(message)) {
            cleaned(message)
        } else {
            plain_refusal(status)
        },
        None => plain_refusal(status),
    }
}

fn get_upstream_message<'a>(value: &'a Json) -> (r: Option<&'a str>)
    ensures
        r is Some <==> upstream_message(value@) is Some,
        r matches Some(message) ==> message@ == upstream_message(value@)->0,
{
    let nested = match value.get("error") {
        Some(error) => error.str_at("message"),
        None => None,
    };
    match nested {
        Some(message) => Some(message),
        None => value.str_at("message"),
    }
}

fn clean(message: &str) -> (r: String)
    ensures
        r@ == cleaned(message@),
{
    let chars = to_chars(message);
    let mut out: Vec<char> = Vec::new();
    let mut i: usize = 0;
    while i < chars.len()
        invariant
            i <= chars.len(),
            chars@ == message@,
            out@ == visible(message@.take(i as int)),
        decreases chars.len() - i,
    {
        assert(message@.take(i + 1).drop_last() =~= message@.take(i as int));
        assert(message@.take(i + 1).last() == chars@[i as int]);
        if !is_control(chars[i]) {
            out.push(chars[i]);
        }
        i = i + 1;
    }
    assert(message@.take(i as int) =~= message@);
    if out.len() <= MAX_MESSAGE_CHARS {
        let text = to_text(&out, 0, out.len());
        assert(text@ =~= out@);
        text
    } else {
        let text = to_text(&out, 0, MAX_MESSAGE_CHARS);
        assert(text@ =~= out@.take(MAX_MESSAGE_CHARS as int));
        text
    }
}

/// Whether the message may be shown.
pub fn is_harmless(message: &str) -> (r: bool)
    ensures
        r == harmless(message@),
{
    if message.is_empty() {
        return false;
    }
    let lowered = to_ascii_lowered(message);
    if contains_text(&lowered, "authorization") || contains_text(&lowered, "bearer ")
        || contains_text(&lowered, "access_token") || contains_text(&lowered, "refresh_token") {
        return false;
    }
    let list = split_words(message, Blanks::Unicode);
    let ghost all = words(message@, Blanks::Unicode);
    let mut i: usize = 0;
    while i < list.len()
        invariant
            i <= list.len(),
            all == words(message@, Blanks::Unicode),
            texts(list@) == all,
            forall|j: int| 0 <= j < i ==> !suspicious(#[trigger] all[j]),
        decreases list.len() - i,
    {
        assert(all[i as int] == list@[i as int]@);
        let word = list[i].as_str();
        if byte_len(word) > MAX_WORD_BYTES && word.is_ascii() {
            assert(suspicious(all[i as int]));
            return false;
        }
        i = i + 1;
    }
    true
}

fn get_plain_refusal(status: u16) -> (r: String)
    ensures
        r@ == plain_refusal(status),
{
    let mut text = "AI Pass request failed (".to_owned();
    text.append(to_decimal(status as u64).as_str());
    text.append(")");
    text
}

/// What is shown of a refusal.
pub fn clipped_error_message(value: &Json, status: u16) -> (r: String)
    ensures
        r@ == shown_message(value@, status),
{
    match get_upstream_message(value) {
        Some(message) => {
            let text = clean(message);
            if is_harmless(text.as_str()) {
                text
            } else {
                get_plain_refusal(status)
            }
        },
        None => get_plain_refusal(status),
    }
}

proof fn visible_has_no_control(s: Seq<char>)
    ensures
        forall|i: int| 0 <= i < visible(s).len() ==> !control(#[trigger] visible(s)[i]),
    decreases s.len(),
{
    if s.len() > 0 {
        visible_has_no_control(s.drop_last());
        let before = visible(s.drop_last());
        assert forall|i: int| 0 <= i < visible(s).len() implies !control(
            #[trigger] visible(s)[i],
        ) by {
            if i < before.len() {
                assert(visible(s)[i] == before[i]);
            }
        }
    }
}

proof fn decimal_is_digits(n: nat)
    ensures
        forall|i: int| 0 <= i < decimal(n).len() ==> '0' <= #[trigger] decimal(n)[i] <= '9',
        n < 10 ==> decimal(n).len() == 1,
        n < 100 ==> decimal(n).len() <= 2,
        n < 1000 ==> decimal(n).len() <= 3,
        n < 10000 ==> decimal(n).len() <= 4,
        n < 100000 ==> decimal(n).len() <= 5,
    decreases n,
{
    if n >= 10 {
        decimal_is_digits(n / 10);
        let before = decimal(n / 10);
        assert forall|i: int| 0 <= i < decimal(n).len() implies '0' <= #[trigger] decimal(n)[i]
            <= '9' by {
            if i < before.len() {
                assert(decimal(n)[i] == before[i]);
            }
        }
    }
}

proof fn words_are_no_longer(s: Seq<char>, blanks: Blanks)
    ensures
        forall|i: int|
            0 <= i < words(s, blanks).len() ==> (#[trigger] words(s, blanks)[i]).len() <= s.len(),
        s.len() > 0 && !blanks.holds(s.last()) ==> words(s, blanks).len() > 0,
    decreases s.len(),
{
    if s.len() > 0 {
        words_are_no_longer(s.drop_last(), blanks);
        let before = words(s.drop_last(), blanks);
        assert forall|i: int| 0 <= i < words(s, blanks).len() implies (#[trigger] words(
            s,
            blanks,
        )[i]).len() <= s.len() by {
            if i < before.len() {
                assert(before[i].len() <= s.len() - 1);
            }
        }
    }
}

proof fn absent_char_rules_out(s: Seq<char>, needle: Seq<char>, at: int)
    requires
        0 <= at < needle.len(),
        forall|i: int| 0 <= i < s.len() ==> #[trigger] s[i] != needle[at],
    ensures
        !occurs(s, needle),
{
    if occurs(s, needle) {
        let start = choose|start: int| occurs_at(s, needle, start);
        assert(s.subrange(start, start + needle.len())[at] == s[start + at]);
    }
}

/// The plain refusal may always be shown.
pub proof fn plain_refusal_is_harmless(status: u16)
    ensures
        harmless(plain_refusal(status)),
        plain_refusal(status).len() <= MAX_MESSAGE_CHARS,
        forall|i: int|
            0 <= i < plain_refusal(status).len() ==> !control(#[trigger] plain_refusal(status)[i]),
{
    reveal_strlit("AI Pass request failed (");
    reveal_strlit(")");
    reveal_strlit("authorization");
    reveal_strlit("bearer ");
    reveal_strlit("access_token");
    reveal_strlit("refresh_token");
    let head = "AI Pass request failed ("@;
    let number = decimal(status as nat);
    let s = plain_refusal(status);
    let lowered = ascii_lowered(s);
    decimal_is_digits(status as nat);
    assert(head.len() == 24);
    assert(s.len() <= 30);
    assert forall|i: int| 0 <= i < s.len() implies {
        let c = #[trigger] s[i];
        &&& !control(c)
        &&& c <= '\u{7f}'
        &&& c != 'z' && c != 'b' && c != '_' && c != 'Z' && c != 'B'
    } by {
        if i < 24 {
            assert(s[i] == head[i]);
        } else if i < 24 + number.len() {
            assert(s[i] == number[i - 24]);
        } else {
            assert(s[i] == ')');
        }
    }
    assert forall|i: int| 0 <= i < lowered.len() implies {
        let c = #[trigger] lowered[i];
        c != 'z' && c != 'b' && c != '_'
    } by {
        assert(lowered[i] == ascii_lower(s[i]));
    }
    absent_char_rules_out(lowered, "authorization"@, 7);
    absent_char_rules_out(lowered, "bearer "@, 0);
    absent_char_rules_out(lowered, "access_token"@, 6);
    absent_char_rules_out(lowered, "refresh_token"@, 7);
    words_are_no_longer(s, Blanks::Unicode);
    assert forall|i: int| 0 <= i < words(s, Blanks::Unicode).len() implies !suspicious(
        #[trigger] words(s, Blanks::Unicode)[i],
    ) by {
        let word = words(s, Blanks::Unicode)[i];
        if is_ascii_chars(word) {
            is_ascii_chars_encode_utf8(word);
        }
    }
}

/// Whatever the service answers, what is shown names no credential and holds no long ASCII word
/// and no control character, and is neither empty nor above the limit.
pub proof fn shown_message_is_harmless(value: JsonView, status: u16)
    ensures
        harmless(shown_message(value, status)),
        shown_message(value, status).len() <= MAX_MESSAGE_CHARS,
        forall|i: int|
            0 <= i < shown_message(value, status).len() ==> !control(
                #[trigger] shown_message(value, status)[i],
            ),
{
    plain_refusal_is_harmless(status);
    if let Some(message) = upstream_message(value) {
        visible_has_no_control(message);
    }
}

/// The document that tells a consumer of a refusal.
pub open spec fn refusal_document(message: Seq<char>, status: u16) -> JsonView {
    JsonView::Object(
        seq![
            (
                "error"@,
                JsonView::Object(
                    seq![
                        ("code"@, JsonView::Number(Some(status as u64))),
                        ("message"@, JsonView::Text(message)),
                        ("type"@, JsonView::Text("aipass_error"@)),
                    ],
                ),
            ),
        ],
    )
}

/// The bytes of the document that tells a consumer of a refusal.
pub fn refusal_body(message: &str, status: u16) -> (r: Result<Vec<u8>, AiPassError>)
    ensures
        r is Ok,
        r->Ok_0@ == json_bytes(refusal_document(message@, status)),
        json_document(r->Ok_0@) == Some(refusal_document(message@, status)),
{
    broadcast use view_of_parts;

    let ghost wanted = refusal_document(message@, status);
    let ghost wanted_inner = wanted->Object_0[0].1;
    let mut members: Vec<(String, Json)> = Vec::new();
    members.push(("code".to_owned(), Json::Number(Some(status as u64))));
    members.push(("message".to_owned(), Json::Text(message.to_owned())));
    members.push(("type".to_owned(), Json::Text("aipass_error".to_owned())));
    assert(member_views(members@) =~= wanted_inner->Object_0);
    let inner = Json::Object(members);
    assert(inner@ == wanted_inner);
    let mut outer: Vec<(String, Json)> = Vec::new();
    outer.push(("error".to_owned(), inner));
    assert(member_views(outer@) =~= wanted->Object_0);
    let json = Json::Object(outer);
    proof {
        reveal_strlit("code");
        reveal_strlit("message");
        reveal_strlit("type");
        let names = seq!["code"@, "message"@, "type"@];
        precedes_at(names[0], names[1], 0);
        precedes_at(names[0], names[2], 0);
        precedes_at(names[1], names[2], 0);
        assert(ordered(names));
        assert(member_names(wanted_inner->Object_0) =~= names);
        reveal_with_fuel(plain, 3);
        assert(plain(wanted_inner, 99));
        assert(ordered(member_names(wanted->Object_0)));
        assert(plain(json@, written_depth()));
    }
    match write_json(json) {
        Ok(bytes) => Ok(bytes),
        Err(_) => Err(AiPassError::ErrorReplyNotPrepared),
    }
}

/// What a consumer is sent of a refusal whose document has these bytes.
pub open spec fn refusal_messages(status: u16, document: Seq<u8>) -> Seq<StreamView> {
    seq![
        StreamView::Headers { status, content_type: "application/json"@ },
        StreamView::Data { data: base64_standard(document) },
        StreamView::Done,
    ]
}

/// What a consumer of a refusal reads is the document.
pub proof fn refusal_carries_its_document(status: u16, document: Seq<u8>)
    ensures
        carried(refusal_messages(status, document)) == document,
{
    reveal_with_fuel(carried, 4);
    standard_form_reads_back(document);
    let messages = refusal_messages(status, document);
    assert(messages.drop_first()[0] == messages[1]);
    assert(messages.drop_first().drop_first()[0] == messages[2]);
    assert(carried(messages) =~= document);
}

/// The document that a body holds; a body that holds none stands for `null`.
pub open spec fn document_or_null(body: Seq<u8>) -> JsonView {
    match json_document(body) {
        Some(value) => value,
        None => JsonView::Null,
    }
}

/// What a consumer is sent of a refusal that is shown with `message`. There is nothing to send
/// when the document is too large for the memory of the machine.
pub fn send_refusal(status: u16, message: &str) -> (r: Result<Vec<StreamMessage>, AiPassError>)
    ensures
        ({
            let document = json_bytes(refusal_document(message@, status));
            match r {
                Ok(messages) => {
                    &&& base64_len(true, document.len()) <= isize::MAX
                    &&& message_views(messages@) == refusal_messages(status, document)
                    &&& json_document(document) == Some(refusal_document(message@, status))
                },
                Err(error) => base64_len(true, document.len()) > isize::MAX && error
                    == AiPassError::ErrorReplyNotPrepared,
            }
        }),
{
    let document = match refusal_body(message, status) {
        Ok(document) => document,
        Err(error) => {
            return Err(error);
        },
    };
    if document.len() > isize::MAX as usize / 4 * 3 {
        return Err(AiPassError::ErrorReplyNotPrepared);
    }
    let mut messages: Vec<StreamMessage> = Vec::new();
    messages.push(
        StreamMessage::Headers { status, content_type: "application/json".to_owned() },
    );
    messages.push(StreamMessage::Data { data: encode_standard(document.as_slice()) });
    messages.push(StreamMessage::Done);
    assert(message_views(messages@) =~= refusal_messages(status, document@));
    Ok(messages)
}

/// What a consumer is sent when the service refuses a chat with this status and body.
pub fn send_bounded_error(status: u16, body: &[u8]) -> (r: Result<Vec<StreamMessage>, AiPassError>)
    ensures
        ({
            let message = shown_message(document_or_null(body@), status);
            let document = json_bytes(refusal_document(message, status));
            match r {
                Ok(messages) => {
                    &&& base64_len(true, document.len()) <= isize::MAX
                    &&& message_views(messages@) == refusal_messages(status, document)
                    &&& json_document(document) == Some(refusal_document(message, status))
                },
                Err(error) => base64_len(true, document.len()) > isize::MAX && error
                    == AiPassError::ErrorReplyNotPrepared,
            }
        }),
{
    let value = match parse_json(body) {
        Ok(value) => value,
        Err(_) => Json::Null,
    };
    let message = clipped_error_message(&value, status);
    send_refusal(status, message.as_str())
}

/// Control characters are left out of a message wherever they stand, and nothing else is.
pub proof fn control_characters_are_left_out(before: Seq<char>, c: char, after: Seq<char>)
    ensures
        visible(Seq::<char>::empty()) == Seq::<char>::empty(),
        c <= '\u{1f}' || '\u{7f}' <= c <= '\u{9f}' ==> visible(before + seq![c] + after) == visible(
            before,
        ) + visible(after),
        !(c <= '\u{1f}') && !('\u{7f}' <= c <= '\u{9f}') ==> visible(before + seq![c] + after)
            == visible(before) + seq![c] + visible(after),
    decreases after.len(),
{
    let all = before + seq![c] + after;
    assert(visible(Seq::<char>::empty()) =~= Seq::<char>::empty());
    if after.len() == 0 {
        assert(all.drop_last() =~= before);
        assert(all.last() == c);
        assert(after =~= Seq::<char>::empty());
        assert(visible(before) + visible(after) =~= visible(before));
        assert(visible(before) + seq![c] + visible(after) =~= visible(before).push(c));
    } else {
        let shorter = after.drop_last();
        let last = after.last();
        control_characters_are_left_out(before, c, shorter);
        assert(all.drop_last() =~= before + seq![c] + shorter);
        assert(all.last() == last);
        if !control(last) {
            assert((visible(before) + visible(shorter)).push(last) =~= visible(before) + visible(
                shorter,
            ).push(last));
            assert((visible(before) + seq![c] + visible(shorter)).push(last) =~= visible(before)
                + seq![c] + visible(shorter).push(last));
        }
    }
}

proof fn text_without_controls_is_visible(s: Seq<char>)
    requires
        forall|i: int|
            0 <= i < s.len() ==> !(#[trigger] s[i] <= '\u{1f}') && !('\u{7f}' <= s[i] <= '\u{9f}'),
    ensures
        visible(s) == s,
    decreases s.len(),
{
    if s.len() > 0 {
        let before = s.drop_last();
        assert forall|i: int| 0 <= i < before.len() implies !(#[trigger] before[i] <= '\u{1f}') && !(
        '\u{7f}' <= before[i] <= '\u{9f}') by {
            assert(before[i] == s[i]);
        }
        text_without_controls_is_visible(before);
        assert(s.last() == s[s.len() - 1]);
        assert(before.push(s.last()) =~= s);
    } else {
        assert(visible(s) =~= s);
    }
}

/// The message could give a credential away: it names one, in whatever case, or holds a word of
/// more than 128 bytes of ASCII.
pub open spec fn gives_away(message: Seq<char>) -> bool {
    ||| occurs(ascii_lowered(message), "authorization"@)
    ||| occurs(ascii_lowered(message), "bearer "@)
    ||| occurs(ascii_lowered(message), "access_token"@)
    ||| occurs(ascii_lowered(message), "refresh_token"@)
    ||| exists|i: int|
        0 <= i < words(message, Blanks::Unicode).len() && is_ascii_chars(
            #[trigger] words(message, Blanks::Unicode)[i],
        ) && words(message, Blanks::Unicode)[i].len() > 128
}

/// A message may be shown exactly if it is not empty and gives nothing away.
pub proof fn giving_away_is_harm(message: Seq<char>)
    ensures
        harmless(message) <==> message.len() > 0 && !gives_away(message),
{
    let list = words(message, Blanks::Unicode);
    assert forall|i: int| 0 <= i < list.len() implies (suspicious(#[trigger] list[i]) <==> (
    is_ascii_chars(list[i]) && list[i].len() > 128)) by {
        if is_ascii_chars(list[i]) {
            is_ascii_chars_encode_utf8(list[i]);
        }
    }
    if !harmless(message) && message.len() > 0 && !names_credential(message) {
        let i = choose|i: int| 0 <= i < list.len() && suspicious(#[trigger] list[i]);
        assert(is_ascii_chars(list[i]) && list[i].len() > 128);
    }
}

/// The service gives the message: in its error, or else at the top level.
pub open spec fn gives_message(value: JsonView, message: Seq<char>) -> bool {
    let nested = match value.get("error"@) {
        Some(error) => error.get("message"@),
        None => None,
    };
    if nested matches Some(JsonView::Text(_)) {
        nested == Some(JsonView::Text(message))
    } else {
        value.get("message"@) == Some(JsonView::Text(message))
    }
}

proof fn given_message_is_upstream(value: JsonView, message: Seq<char>)
    ensures
        upstream_message(value) == Some(message) <==> gives_message(value, message),
{
    values_are_taken_for_what_they_are(value, "message"@);
    if let Some(error) = value.get("error"@) {
        values_are_taken_for_what_they_are(error, "message"@);
        if let Some(JsonView::Text(text)) = error.get("message"@) {
            assert(error.text_at("message"@) == Some(text));
        }
        if let Some(text) = error.text_at("message"@) {
            assert(error.get("message"@) == Some(JsonView::Text(text)));
        }
    }
}

/// A message of 1 to 512 characters without control characters that gives nothing away is shown as
/// it is, whatever the status.
pub proof fn good_message_is_shown_as_it_is(value: JsonView, message: Seq<char>, status: u16)
    requires
        gives_message(value, message),
        1 <= message.len() <= 512,
        forall|i: int|
            0 <= i < message.len() ==> !(#[trigger] message[i] <= '\u{1f}') && !('\u{7f}'
                <= message[i] <= '\u{9f}'),
        !gives_away(message),
    ensures
        shown_message(value, status) == message,
{
    given_message_is_upstream(value, message);
    text_without_controls_is_visible(message);
    giving_away_is_harm(message);
}

/// Of any message that is given, what is shown is its first 512 characters but for control
/// characters, unless these give something away or there are none; in place of these, and where no
/// message is given, only the status is told.
pub proof fn message_is_shown_in_part_or_not_at_all(
    value: JsonView,
    message: Seq<char>,
    status: u16,
)
    ensures
        ({
            let kept = if visible(message).len() <= 512 {
                visible(message)
            } else {
                visible(message).take(512)
            };
            let told = "AI Pass request failed ("@ + decimal(status as nat) + ")"@;
            &&& gives_message(value, message) && kept.len() > 0 && !gives_away(kept)
                ==> shown_message(value, status) == kept
            &&& gives_message(value, message) && (kept.len() == 0 || gives_away(kept))
                ==> shown_message(value, status) == told
            &&& (forall|other: Seq<char>| !gives_message(value, other)) ==> shown_message(
                value,
                status,
            ) == told
            &&& !gives_away(shown_message(value, status))
        }),
{
    given_message_is_upstream(value, message);
    giving_away_is_harm(cleaned(message));
    shown_message_is_harmless(value, status);
    giving_away_is_harm(shown_message(value, status));
    if let Some(other) = upstream_message(value) {
        given_message_is_upstream(value, other);
    }
}

/// The consumer of a refusal is told its status and the message that is shown, in one document.
pub proof fn refusal_tells_status_and_message(message: Seq<char>, status: u16, document: Seq<u8>)
    ensures
        ({
            let value = refusal_document(message, status);
            &&& value matches JsonView::Object(members) && members.len() == 1
            &&& value.get("error"@) matches Some(error)
            &&& error matches JsonView::Object(parts) && parts.len() == 3
            &&& error.get("code"@) == Some(JsonView::Number(Some(status as u64)))
            &&& error.get("message"@) == Some(JsonView::Text(message))
            &&& error.get("type"@) == Some(JsonView::Text("aipass_error"@))
        }),
        ({
            let messages = refusal_messages(status, document);
            &&& messages.len() == 3
            &&& messages[0] == (StreamView::Headers { status, content_type: "application/json"@ })
            &&& messages[1] == (StreamView::Data { data: base64_standard(document) })
            &&& messages[2] is Done
        }),
{
    let value = refusal_document(message, status);
    let members = value->Object_0;
    let parts = members[0].1->Object_0;
    let names = seq!["code"@, "message"@, "type"@];
    reveal_strlit("code");
    reveal_strlit("message");
    reveal_strlit("type");
    precedes_at(names[0], names[1], 0);
    precedes_at(names[0], names[2], 0);
    precedes_at(names[1], names[2], 0);
    assert(member_names(parts) =~= names);
    ordered_names_are_distinct(names);
    assert(member_names(members).no_duplicates());
    members_are_found_by_name(members, "error"@);
    assert(members[0].0 == "error"@);
    members_are_found_by_name(parts, "code"@);
    members_are_found_by_name(parts, "message"@);
    members_are_found_by_name(parts, "type"@);
    assert(parts[0].0 == "code"@ && parts[1].0 == "message"@ && parts[2].0 == "type"@);
}

/// A refusal whose body is a document is shown by that document; any other body says nothing.
pub proof fn refusal_is_judged_by_its_document(body: Seq<u8>)
    ensures
        json_document(body) matches Some(value) ==> document_or_null(body) == value,
        json_document(body) is None ==> document_or_null(body) == JsonView::Null,
{
}

} // verus!
