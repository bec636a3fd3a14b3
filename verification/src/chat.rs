//! Chats: what may be asked, and which chats are under way.
use crate::encoding::url_safe;
use crate::error::AiPassError;
use crate::json::{
    json_document, parse_json, values_are_taken_for_what_they_are, Json, JsonView,
};
use crate::limits::{
    MAX_ACTIVE_CHAT_REQUESTS, MAX_CHAT_REQUEST_BYTES, MAX_MODEL_ID_BYTES, MAX_REQUEST_ID_BYTES,
};
use crate::text::{bounded, bounds_count_bytes, byte_len, is_bounded, str_eq, to_chars};
use vstd::prelude::*;
use vstd::utf8::*;

verus! {

/// A chat that can be passed on: an object that names a model and has a list of messages.
pub open spec fn chat_document(value: JsonView) -> bool {
    &&& value is Object
    &&& value.text_at("model"@) matches Some(model) && bounded(model, MAX_MODEL_ID_BYTES)
    &&& value.items_at("messages"@) is Some
}

/// Why the body of a chat is refused, if it is.
pub open spec fn chat_failure(body: Seq<char>) -> Option<AiPassError> {
    if !bounded(body, MAX_CHAT_REQUEST_BYTES) {
        Some(AiPassError::ChatTooLarge)
    } else if json_document(encode_utf8(body)) matches Some(value) && chat_document(value) {
        None
    } else {
        Some(AiPassError::ChatInvalid)
    }
}

/// The failure as a result.
pub open spec fn refused(failure: Option<AiPassError>) -> Result<(), AiPassError> {
    match failure {
        Some(error) => Err(error),
        None => Ok(()),
    }
}

/// Judges the document of a chat.
pub fn judge_chat(value: &Json) -> (r: Result<(), AiPassError>)
    ensures
        r == (if chat_document(value@) {
            Ok::<(), AiPassError>(())
        } else {
            Err(AiPassError::ChatInvalid)
        }),
{
    let names_model = match value.str_at("model") {
        Some(model) => is_bounded(model, MAX_MODEL_ID_BYTES),
        None => false,
    };
    if value.is_object() && names_model && value.array_at("messages").is_some() {
        Ok(())
    } else {
        Err(AiPassError::ChatInvalid)
    }
}

/// Judges the body of a chat.
pub fn validate_chat_request(body: &str) -> (r: Result<(), AiPassError>)
    ensures
        r == refused(chat_failure(body@)),
{
    if !is_bounded(body, MAX_CHAT_REQUEST_BYTES) {
        return Err(AiPassError::ChatTooLarge);
    }
    match parse_json(body.as_bytes()) {
        Ok(value) => judge_chat(&value),
        Err(_) => Err(AiPassError::ChatInvalid),
    }
}

/// The identifier of a request: some letters, digits, hyphens and underscores.
pub open spec fn valid_request_id(id: Seq<char>) -> bool {
    bounded(id, MAX_REQUEST_ID_BYTES) && forall|i: int|
        0 <= i < id.len() ==> url_safe(#[trigger] id[i])
}

/// Whether the identifier of a request is valid.
pub fn is_valid_request_id(id: &str) -> (r: bool)
    ensures
        r == valid_request_id(id@),
{
    if !is_bounded(id, MAX_REQUEST_ID_BYTES) {
        return false;
    }
    let chars = to_chars(id);
    let mut i: usize = 0;
    while i < chars.len()
        invariant
            i <= chars.len(),
            chars@ == id@,
            forall|j: int| 0 <= j < i ==> url_safe(#[trigger] id@[j]),
        decreases chars.len() - i,
    {
        let c = chars[i];
        if !(('A' <= c && c <= 'Z') || ('a' <= c && c <= 'z') || ('0' <= c && c <= '9') || c == '-'
            || c == '_') {
            assert(!url_safe(id@[i as int]));
            return false;
        }
        i = i + 1;
    }
    true
}

/// The chats that are under way, each with what stops it. They are a `registry` at all times.
pub struct AiPassState<T> {
    active_chat: Vec<(String, T)>,
}

impl<T> View for AiPassState<T> {
    type V = Seq<(Seq<char>, T)>;

    closed spec fn view(&self) -> Seq<(Seq<char>, T)> {
        chat_views(self.active_chat@)
    }
}

/// The chats of a list, with the texts of their identifiers.
spec fn chat_views<T>(list: Seq<(String, T)>) -> Seq<(Seq<char>, T)> {
    Seq::new(list.len(), |i: int| (list[i].0@, list[i].1))
}

/// The place of the chat `id` among those under way, or their number.
pub open spec fn place<T>(chats: Seq<(Seq<char>, T)>, id: Seq<char>) -> int
    decreases chats.len(),
{
    if chats.len() == 0 || chats[0].0 == id {
        0
    } else {
        1 + place(chats.drop_first(), id)
    }
}

/// The chat `id` is under way.
pub open spec fn is_active<T>(chats: Seq<(Seq<char>, T)>, id: Seq<char>) -> bool {
    place(chats, id) < chats.len()
}

/// The chats without the one that is `id`.
pub open spec fn ended<T>(chats: Seq<(Seq<char>, T)>, id: Seq<char>) -> Seq<(Seq<char>, T)> {
    if is_active(chats, id) {
        chats.remove(place(chats, id))
    } else {
        chats
    }
}

/// No more chats are under way than are permitted, no two under one identifier, and every
/// identifier is valid.
pub open spec fn registry<T>(chats: Seq<(Seq<char>, T)>) -> bool {
    &&& chats.len() <= MAX_ACTIVE_CHAT_REQUESTS
    &&& forall|i: int, j: int| 0 <= i < j < chats.len() ==> #[trigger] chats[i].0 != #[trigger] chats[j].0
    &&& forall|i: int| 0 <= i < chats.len() ==> valid_request_id((#[trigger] chats[i]).0)
}

/// Why a chat is not admitted, if it is not: the first reason in this order.
pub open spec fn admission_failure<T>(
    chats: Seq<(Seq<char>, T)>,
    body: Seq<char>,
    id: Seq<char>,
) -> Option<AiPassError> {
    if chat_failure(body) is Some {
        chat_failure(body)
    } else if !valid_request_id(id) {
        Some(AiPassError::RequestIdInvalid)
    } else if is_active(chats, id) {
        Some(AiPassError::RequestIdActive)
    } else if chats.len() >= MAX_ACTIVE_CHAT_REQUESTS {
        Some(AiPassError::TooManyRequests)
    } else {
        None
    }
}

/// The place of a chat is within the list, and it is the first with its identifier.
proof fn place_is_first<T>(chats: Seq<(Seq<char>, T)>, id: Seq<char>)
    ensures
        0 <= place(chats, id) <= chats.len(),
        is_active(chats, id) ==> chats[place(chats, id)].0 == id,
        forall|i: int| 0 <= i < place(chats, id) ==> (#[trigger] chats[i]).0 != id,
    decreases chats.len(),
{
    if chats.len() > 0 && chats[0].0 != id {
        let rest = chats.drop_first();
        place_is_first(rest, id);
        assert forall|i: int| 0 <= i < place(chats, id) implies (#[trigger] chats[i]).0 != id by {
            if i > 0 {
                assert(chats[i] == rest[i - 1]);
            }
        }
        if is_active(rest, id) {
            assert(rest[place(rest, id)] == chats[place(chats, id)]);
        }
    }
}

impl<T> AiPassState<T> {
    #[verifier::type_invariant]
    spec fn well_formed(self) -> bool {
        registry(chat_views(self.active_chat@))
    }

    /// No chat is under way.
    pub fn new() -> (r: Self)
        ensures
            registry(r@),
            r@ == Seq::<(Seq<char>, T)>::empty(),
    {
        let active_chat: Vec<(String, T)> = Vec::new();
        assert(chat_views(active_chat@) =~= Seq::<(Seq<char>, T)>::empty());
        AiPassState { active_chat }
    }

    /// The place of the chat `id`, or the number of chats.
    fn find(&self, id: &str) -> (r: usize)
        ensures
            r == place(self@, id@),
            r <= self.active_chat@.len() == self@.len(),
    {
        let ghost all = self@;
        let mut i: usize = 0;
        assert(all.skip(0) =~= all);
        while i < self.active_chat.len()
            invariant
                i <= self.active_chat.len(),
                all == self@,
                place(all, id@) == i + place(all.skip(i as int), id@),
            decreases self.active_chat.len() - i,
        {
            assert(all.skip(i as int)[0] == all[i as int]);
            if str_eq(self.active_chat[i].0.as_str(), id) {
                return i;
            }
            assert(all.skip(i as int).drop_first() =~= all.skip(i + 1));
            i = i + 1;
        }
        i
    }

    /// Admits a chat whose body has been judged with this result.
    pub fn begin_judged(
        &mut self,
        judged: Result<(), AiPassError>,
        request_id: &str,
        handle: T,
    ) -> (r: Result<(), AiPassError>)
        ensures
            registry(final(self)@),
            r == (if judged is Err {
                judged
            } else if !valid_request_id(request_id@) {
                Err(AiPassError::RequestIdInvalid)
            } else if is_active(old(self)@, request_id@) {
                Err(AiPassError::RequestIdActive)
            } else if old(self)@.len() >= MAX_ACTIVE_CHAT_REQUESTS {
                Err(AiPassError::TooManyRequests)
            } else {
                Ok(())
            }),
            r is Ok ==> final(self)@ == old(self)@.push((request_id@, handle)),
            r is Err ==> final(self)@ == old(self)@,
    {
        proof {
            use_type_invariant(&*self);
        }
        if judged.is_err() {
            return judged;
        }
        if !is_valid_request_id(request_id) {
            return Err(AiPassError::RequestIdInvalid);
        }
        proof {
            place_is_first(self@, request_id@);
        }
        if self.find(request_id) < self.active_chat.len() {
            return Err(AiPassError::RequestIdActive);
        }
        if self.active_chat.len() >= MAX_ACTIVE_CHAT_REQUESTS {
            return Err(AiPassError::TooManyRequests);
        }
        let ghost before = self@;
        let mut chats: Vec<(String, T)> = Vec::new();
        assert(chat_views(chats@) =~= Seq::<(Seq<char>, T)>::empty());
        std::mem::swap(&mut chats, &mut self.active_chat);
        chats.push((request_id.to_owned(), handle));
        assert(chat_views(chats@) =~= before.push((request_id@, handle)));
        self.active_chat = chats;
        Ok(())
    }

    /// Admits a chat: from now on it is under way, and `handle` stops it.
    pub fn begin(&mut self, body: &str, request_id: &str, handle: T) -> (r: Result<(), AiPassError>)
        ensures
            registry(final(self)@),
            r == refused(admission_failure(old(self)@, body@, request_id@)),
            r is Ok ==> final(self)@ == old(self)@.push((request_id@, handle)),
            r is Err ==> final(self)@ == old(self)@,
    {
        self.begin_judged(validate_chat_request(body), request_id, handle)
    }

    /// Ends a chat: it is no longer under way.
    pub fn finish(&mut self, request_id: &str)
        ensures
            registry(final(self)@),
            final(self)@ == ended(old(self)@, request_id@),
    {
        proof {
            use_type_invariant(&*self);
        }
        let ghost before = self@;
        let at = self.find(request_id);
        if at < self.active_chat.len() {
            let mut chats: Vec<(String, T)> = Vec::new();
            assert(chat_views(chats@) =~= Seq::<(Seq<char>, T)>::empty());
            std::mem::swap(&mut chats, &mut self.active_chat);
            let _ = chats.remove(at);
            assert(chat_views(chats@) =~= before.remove(at as int));
            self.active_chat = chats;
        }
    }
}

/// What stops the chat `request_id`, if it is under way. An identifier that is too long to be one
/// is refused.
pub fn aipass_cancel_chat<'a, T>(request_id: &str, state: &'a AiPassState<T>) -> (r: Result<
    Option<&'a T>,
    AiPassError,
>)
    ensures
        match r {
            Err(error) => encode_utf8(request_id@).len() > MAX_REQUEST_ID_BYTES && error
                == AiPassError::RequestIdInvalid,
            Ok(Some(handle)) => encode_utf8(request_id@).len() <= MAX_REQUEST_ID_BYTES && is_active(
                state@,
                request_id@,
            ) && *handle == state@[place(state@, request_id@)].1,
            Ok(None) => encode_utf8(request_id@).len() <= MAX_REQUEST_ID_BYTES && !is_active(
                state@,
                request_id@,
            ),
        },
{
    if byte_len(request_id) > MAX_REQUEST_ID_BYTES {
        return Err(AiPassError::RequestIdInvalid);
    }
    let at = state.find(request_id);
    if at < state.active_chat.len() {
        Ok(Some(&state.active_chat[at].1))
    } else {
        Ok(None)
    }
}

/// What stops the chats that are under way: every one of them.
pub fn cancel_all_chat<'a, T>(state: &'a AiPassState<T>) -> (r: Vec<&'a T>)
    ensures
        r@.len() == state@.len(),
        forall|i: int| 0 <= i < r@.len() ==> *(#[trigger] r@[i]) == state@[i].1,
{
    let mut handles: Vec<&'a T> = Vec::new();
    let mut i: usize = 0;
    while i < state.active_chat.len()
        invariant
            i <= state.active_chat.len(),
            handles@.len() == i,
            forall|j: int| 0 <= j < i ==> *(#[trigger] handles@[j]) == state@[j].1,
        decreases state.active_chat.len() - i,
    {
        handles.push(&state.active_chat[i].1);
        i = i + 1;
    }
    handles
}

/// A chat that is admitted can be stopped by its handle until it ends, and its end leaves the
/// other chats as they were before it began.
pub proof fn admitted_chat_ends_cleanly<T>(
    chats: Seq<(Seq<char>, T)>,
    body: Seq<char>,
    id: Seq<char>,
    handle: T,
)
    requires
        registry(chats),
        admission_failure(chats, body, id) is None,
    ensures
        registry(chats.push((id, handle))),
        is_active(chats.push((id, handle)), id),
        chats.push((id, handle))[place(chats.push((id, handle)), id)].1 == handle,
        ended(chats.push((id, handle)), id) == chats,
{
    let more = chats.push((id, handle));
    place_is_first(chats, id);
    place_is_first(more, id);
    assert(more[chats.len() as int].0 == id);
    assert(place(more, id) == chats.len()) by {
        if place(more, id) < chats.len() {
            let at = place(more, id);
            assert(more[at] == chats[at]);
            assert(chats[at].0 == id);
        }
    }
    assert(more.remove(chats.len() as int) =~= chats);
}

/// The end of a chat leaves it inactive and every other chat under way.
pub proof fn end_of_chat_spares_others<T>(
    chats: Seq<(Seq<char>, T)>,
    id: Seq<char>,
    other: int,
)
    requires
        registry(chats),
        0 <= other < chats.len(),
        chats[other].0 != id,
    ensures
        !is_active(ended(chats, id), id),
        ended(chats, id).contains(chats[other]),
{
    let left = ended(chats, id);
    place_is_first(chats, id);
    place_is_first(left, id);
    let at = place(chats, id);
    if is_active(chats, id) {
        if other < at {
            assert(left[other] == chats[other]);
        } else {
            assert(left[other - 1] == chats[other]);
        }
        if is_active(left, id) {
            let k = place(left, id);
            if k < at {
                assert(left[k] == chats[k]);
            } else {
                assert(left[k] == chats[k + 1]);
                assert(chats[at].0 != chats[k + 1].0);
            }
        }
    } else {
        assert(left[other] == chats[other]);
    }
}

/// A chat may hold any messages: whatever the array holds, and however many, the document is
/// accepted if its model is a text of 1 to 256 bytes.
pub proof fn any_messages_are_accepted(value: JsonView, model: Seq<char>, items: Seq<JsonView>)
    requires
        value.get("model"@) == Some(JsonView::Text(model)),
        1 <= encode_utf8(model).len() <= 256,
        value.get("messages"@) == Some(JsonView::Array(items)),
    ensures
        chat_document(value),
{
    values_are_taken_for_what_they_are(value, "model"@);
    values_are_taken_for_what_they_are(value, "messages"@);
    bounds_count_bytes(model, MAX_MODEL_ID_BYTES);
    assert(value.text_at("model"@) == Some(model));
    assert(value.items_at("messages"@) == Some(items));
}

/// A document that is accepted has such a model and an array of messages.
pub proof fn accepted_chat_has_model_and_messages(value: JsonView)
    requires
        chat_document(value),
    ensures
        value.get("model"@) matches Some(JsonView::Text(model)) && 1 <= encode_utf8(model).len()
            <= 256,
        value.get("messages"@) matches Some(JsonView::Array(_)),
{
    values_are_taken_for_what_they_are(value, "model"@);
    values_are_taken_for_what_they_are(value, "messages"@);
    let model = value.text_at("model"@)->0;
    let items = value.items_at("messages"@)->0;
    bounds_count_bytes(model, MAX_MODEL_ID_BYTES);
    assert(value.get("model"@) == Some(JsonView::Text(model)));
    assert(value.get("messages"@) == Some(JsonView::Array(items)));
}

/// A body of 1 to 4194304 bytes is judged by its document alone; any other body is refused for its
/// size, whatever it holds.
pub proof fn body_is_judged_by_its_document(body: Seq<char>)
    ensures
        encode_utf8(body).len() == 0 || encode_utf8(body).len() > 4194304 ==> chat_failure(body)
            == Some(AiPassError::ChatTooLarge),
        1 <= encode_utf8(body).len() <= 4194304 ==> chat_failure(body) == (match json_document(
            encode_utf8(body),
        ) {
            Some(value) => if chat_document(value) {
                None
            } else {
                Some(AiPassError::ChatInvalid)
            },
            None => Some(AiPassError::ChatInvalid),
        }),
{
    bounds_count_bytes(body, MAX_CHAT_REQUEST_BYTES);
}

/// An identifier of a request is 1 to 64 letters, digits, hyphens and underscores of ASCII, in any
/// order.
pub proof fn every_simple_id_is_valid(id: Seq<char>)
    ensures
        valid_request_id(id) <==> 1 <= id.len() <= 64 && forall|i: int|
            0 <= i < id.len() ==> ('A' <= #[trigger] id[i] <= 'Z' || 'a' <= id[i] <= 'z' || '0'
                <= id[i] <= '9' || id[i] == '-' || id[i] == '_'),
{
    bounds_count_bytes(id, MAX_REQUEST_ID_BYTES);
    if forall|i: int|
        0 <= i < id.len() ==> ('A' <= #[trigger] id[i] <= 'Z' || 'a' <= id[i] <= 'z' || '0' <= id[i]
            <= '9' || id[i] == '-' || id[i] == '_') {
        assert(is_ascii_chars(id));
        is_ascii_chars_encode_utf8(id);
        assert forall|i: int| 0 <= i < id.len() implies url_safe(#[trigger] id[i]) by {}
    }
    if valid_request_id(id) {
        assert forall|i: int|
            0 <= i < id.len() implies ('A' <= #[trigger] id[i] <= 'Z' || 'a' <= id[i] <= 'z' || '0'
            <= id[i] <= '9' || id[i] == '-' || id[i] == '_') by {
            assert(url_safe(id[i]));
        }
        assert(is_ascii_chars(id));
        is_ascii_chars_encode_utf8(id);
    }
}

/// A chat is under way exactly if one is listed under its identifier, and its place is where it is
/// listed.
pub proof fn active_chats_are_listed<T>(chats: Seq<(Seq<char>, T)>, id: Seq<char>)
    ensures
        is_active(chats, id) <==> exists|i: int|
            0 <= i < chats.len() && (#[trigger] chats[i]).0 == id,
        is_active(chats, id) ==> 0 <= place(chats, id) < chats.len() && chats[place(chats, id)].0
            == id,
{
    place_is_first(chats, id);
    if is_active(chats, id) {
        assert(chats[place(chats, id)].0 == id);
    }
}

/// The end of a chat takes it out and leaves the others in their order; where it is not under way,
/// nothing changes.
pub proof fn end_takes_out_one_chat<T>(
    before: Seq<(Seq<char>, T)>,
    id: Seq<char>,
    handle: T,
    after: Seq<(Seq<char>, T)>,
)
    requires
        forall|i: int| 0 <= i < before.len() ==> (#[trigger] before[i]).0 != id,
    ensures
        ended(before + seq![(id, handle)] + after, id) == before + after,
        ended(before, id) == before,
{
    let all = before + seq![(id, handle)] + after;
    let at = before.len() as int;
    place_is_first(all, id);
    place_is_first(before, id);
    assert(all[at].0 == id);
    if place(all, id) < at {
        assert(all[place(all, id)] == before[place(all, id)]);
    }
    assert(all.remove(at) =~= before + after);
    if is_active(before, id) {
        assert(before[place(before, id)].0 != id);
    }
}

/// A chat is admitted exactly if its body is accepted, its identifier is valid and not in use, and
/// fewer than 16 chats are under way; otherwise the first of these that fails is the reason.
pub proof fn admission_needs_nothing_else<T>(
    chats: Seq<(Seq<char>, T)>,
    body: Seq<char>,
    id: Seq<char>,
)
    ensures
        ({
            let in_use = exists|i: int| 0 <= i < chats.len() && (#[trigger] chats[i]).0 == id;
            let r = admission_failure(chats, body, id);
            &&& chat_failure(body) is Some ==> r == chat_failure(body)
            &&& chat_failure(body) is None && !valid_request_id(id) ==> r == Some(
                AiPassError::RequestIdInvalid,
            )
            &&& chat_failure(body) is None && valid_request_id(id) && in_use ==> r == Some(
                AiPassError::RequestIdActive,
            )
            &&& chat_failure(body) is None && valid_request_id(id) && !in_use && chats.len() >= 16
                ==> r == Some(AiPassError::TooManyRequests)
            &&& chat_failure(body) is None && valid_request_id(id) && !in_use && chats.len() < 16
                ==> r is None
        }),
{
    active_chats_are_listed(chats, id);
}

/// What is refused is refused with its reason, and what has none is accepted.
pub proof fn refusal_gives_its_reason(error: AiPassError)
    ensures
        refused(Some(error)) == Err::<(), AiPassError>(error),
        refused(None) is Ok,
{
}

} // verus!
