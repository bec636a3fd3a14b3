//! Who the user is to the service, and what the user interface is told about the connection.
use crate::error::{viewed, AiPassError};
use crate::json::{
    json_document, parse_json, values_are_taken_for_what_they_are, Json, JsonView,
};
use crate::text::{
    optional_str, optional_text, to_chars, to_text, trim, trimmed, trimming_takes_off_outer_blanks,
    white_space,
};
use crate::transfer::{is_success, success};
use vstd::prelude::*;

verus! {

/// The number of characters that are kept of a profile field.
pub const MAX_PROFILE_CHARS: usize = 256;

/// What the service says of the user.
#[derive(Clone, Debug)]
pub struct Profile {
    pub display_name: Option<String>,
    pub email: Option<String>,
}

/// What the service says of the user, as mathematics.
pub struct ProfileView {
    pub display_name: Option<Seq<char>>,
    pub email: Option<Seq<char>>,
}

impl View for Profile {
    type V = ProfileView;

    open spec fn view(&self) -> ProfileView {
        ProfileView {
            display_name: optional_text(self.display_name),
            email: optional_text(self.email),
        }
    }
}

/// The profile of which nothing is known.
pub open spec fn unknown_profile() -> ProfileView {
    ProfileView { display_name: None, email: None }
}

impl Default for Profile {
    fn default() -> (r: Self)
        ensures
            r@ == unknown_profile(),
    {
        Profile { display_name: None, email: None }
    }
}

/// A copy of an optional text.
pub fn copy_text(s: &Option<String>) -> (r: Option<String>)
    ensures
        r == *s,
{
    match s {
        Some(s) => Some(s.clone()),
        None => None,
    }
}

impl Profile {
    /// A copy of the profile.
    pub fn copy(&self) -> (r: Self)
        ensures
            r == *self,
    {
        Profile { display_name: copy_text(&self.display_name), email: copy_text(&self.email) }
    }
}

/// What the user interface is told about the connection.
#[derive(Clone, Debug)]
pub struct ConnectionStatus {
    /// Whether this build has a client to connect with.
    pub configured: bool,
    pub connected: bool,
    pub display_name: Option<String>,
    pub email: Option<String>,
}

/// The identifier of the client that a build was given: without the blanks around it, and not
/// empty.
pub open spec fn client_of(build: Option<Seq<char>>) -> Option<Seq<char>> {
    match build {
        Some(value) => if trimmed(value).len() > 0 {
            Some(trimmed(value))
        } else {
            None
        },
        None => None,
    }
}

/// The identifier of the client, out of what the build was given.
pub fn client_id<'a>(build: Option<&'a str>) -> (r: Option<&'a str>)
    ensures
        optional_str(r) == client_of(optional_str(build)),
{
    match build {
        Some(value) => {
            let value = trim(value);
            if value.is_empty() {
                None
            } else {
                Some(value)
            }
        },
        None => None,
    }
}

impl ConnectionStatus {
    /// The status without a connection.
    pub fn disconnected(client: Option<&str>) -> (r: Self)
        ensures
            r.configured == client is Some,
            !r.connected,
            r.display_name is None,
            r.email is None,
    {
        ConnectionStatus {
            configured: client.is_some(),
            connected: false,
            display_name: None,
            email: None,
        }
    }

    /// The status of a connection of the user with this profile.
    pub fn connected(client: Option<&str>, profile: Profile) -> (r: Self)
        ensures
            r.configured == client is Some,
            r.connected,
            r.display_name == profile.display_name,
            r.email == profile.email,
    {
        ConnectionStatus {
            configured: client.is_some(),
            connected: true,
            display_name: profile.display_name,
            email: profile.email,
        }
    }
}

/// What is kept of a profile field: the first characters of what stands between the blanks
/// around it; of a blank field nothing.
pub open spec fn clipped(value: Option<Seq<char>>) -> Option<Seq<char>> {
    match value {
        Some(value) => {
            let inner = trimmed(value);
            if inner.len() == 0 {
                None
            } else if inner.len() <= MAX_PROFILE_CHARS {
                Some(inner)
            } else {
                Some(inner.take(MAX_PROFILE_CHARS as int))
            }
        },
        None => None,
    }
}

/// What is kept of a profile field.
pub fn clipped_profile_field(value: Option<&str>) -> (r: Option<String>)
    ensures
        optional_text(r) == clipped(optional_str(value)),
{
    match value {
        Some(value) => {
            let inner = to_chars(trim(value));
            if inner.len() == 0 {
                None
            } else if inner.len() <= MAX_PROFILE_CHARS {
                let text = to_text(&inner, 0, inner.len());
                assert(text@ == inner@);
                Some(text)
            } else {
                let text = to_text(&inner, 0, MAX_PROFILE_CHARS);
                assert(text@ == inner@.take(MAX_PROFILE_CHARS as int));
                Some(text)
            }
        },
        None => None,
    }
}

/// The text of the member `key` of the profile, or else of its member `user`.
pub open spec fn profile_text(value: JsonView, key: Seq<char>) -> Option<Seq<char>> {
    match value.text_at(key) {
        Some(text) => Some(text),
        None => match value.get("user"@) {
            Some(user) => user.text_at(key),
            None => None,
        },
    }
}

/// The profile that a document holds.
pub open spec fn profile_of(value: JsonView) -> Result<ProfileView, AiPassError> {
    if value is Object {
        Ok(
            ProfileView {
                display_name: clipped(
                    match profile_text(value, "name"@) {
                        Some(name) => Some(name),
                        None => profile_text(value, "display_name"@),
                    },
                ),
                email: clipped(profile_text(value, "email"@)),
            },
        )
    } else {
        Err(AiPassError::ProfileInvalid)
    }
}

fn find_text<'a>(value: &'a Json, key: &str) -> (r: Option<&'a str>)
    ensures
        optional_str(r) == profile_text(value@, key@),
{
    match value.str_at(key) {
        Some(text) => Some(text),
        None => match value.get("user") {
            Some(user) => user.str_at(key),
            None => None,
        },
    }
}

/// The profile that a document holds.
pub fn parse_profile(value: &Json) -> (r: Result<Profile, AiPassError>)
    ensures
        viewed(r) == profile_of(value@),
{
    if !value.is_object() {
        return Err(AiPassError::ProfileInvalid);
    }
    let name = match find_text(value, "name") {
        Some(name) => Some(name),
        None => find_text(value, "display_name"),
    };
    Ok(
        Profile {
            display_name: clipped_profile_field(name),
            email: clipped_profile_field(find_text(value, "email")),
        },
    )
}

/// The profile in the body of a reply.
pub open spec fn profile_of_body(body: Seq<u8>) -> Result<ProfileView, AiPassError> {
    match json_document(body) {
        Some(value) => profile_of(value),
        None => Err(AiPassError::ProfileInvalid),
    }
}

/// The profile in the body of a reply.
pub fn parse_profile_body(body: &[u8]) -> (r: Result<Profile, AiPassError>)
    ensures
        viewed(r) == profile_of_body(body@),
{
    match parse_json(body) {
        Ok(value) => parse_profile(&value),
        Err(_) => Err(AiPassError::ProfileInvalid),
    }
}

/// The profile in a reply, if the request was granted.
pub fn profile_reply(status: u16, body: &[u8]) -> (r: Result<Profile, AiPassError>)
    ensures
        viewed(r) == (if success(status) {
            profile_of_body(body@)
        } else {
            Err(AiPassError::ProfileRejected)
        }),
{
    if !is_success(status) {
        return Err(AiPassError::ProfileRejected);
    }
    parse_profile_body(body)
}

/// A field that is kept has between one and the permitted number of characters, and does not
/// start with a blank.
pub proof fn kept_fields_are_bounded(value: Option<Seq<char>>)
    ensures
        clipped(value) matches Some(text) ==> 0 < text.len() <= MAX_PROFILE_CHARS
            && !white_space(text[0]),
{
    if let Some(value) = value {
        crate::text::trimmed_has_no_blank_ends(value);
    }
}

/// A client is what the build was given, without the blanks around it; blanks alone are none.
pub proof fn client_is_taken_without_blanks(
    before: Seq<char>,
    inner: Seq<char>,
    after: Seq<char>,
)
    requires
        forall|i: int| 0 <= i < before.len() ==> white_space(#[trigger] before[i]),
        forall|i: int| 0 <= i < after.len() ==> white_space(#[trigger] after[i]),
        inner.len() > 0 ==> !white_space(inner[0]) && !white_space(inner.last()),
    ensures
        client_of(Some(before + inner + after)) == (if inner.len() > 0 {
            Some(inner)
        } else {
            None
        }),
        client_of(None) is None,
{
    trimming_takes_off_outer_blanks(before, inner, after);
}

/// Of a profile field its first 256 characters are kept, without the blanks around it; of blanks
/// alone nothing.
pub proof fn field_is_taken_without_blanks(
    before: Seq<char>,
    inner: Seq<char>,
    after: Seq<char>,
)
    requires
        forall|i: int| 0 <= i < before.len() ==> white_space(#[trigger] before[i]),
        forall|i: int| 0 <= i < after.len() ==> white_space(#[trigger] after[i]),
        inner.len() > 0 ==> !white_space(inner[0]) && !white_space(inner.last()),
    ensures
        inner.len() == 0 ==> clipped(Some(before + inner + after)) is None,
        0 < inner.len() <= 256 ==> clipped(Some(before + inner + after)) == Some(inner),
        inner.len() > 256 ==> clipped(Some(before + inner + after)) == Some(inner.take(256)),
        clipped(None) is None,
{
    trimming_takes_off_outer_blanks(before, inner, after);
}

/// The member is there and is a text.
pub open spec fn has_text(value: JsonView, key: Seq<char>) -> bool {
    value.get(key) matches Some(JsonView::Text(_))
}

/// The member `user` is there and has the text.
pub open spec fn user_has_text(value: JsonView, key: Seq<char>) -> bool {
    value.get("user"@) matches Some(user) && has_text(user, key)
}

proof fn own_text_is_found(value: JsonView, key: Seq<char>, text: Seq<char>)
    requires
        value.get(key) == Some(JsonView::Text(text)),
    ensures
        profile_text(value, key) == Some(text),
{
    values_are_taken_for_what_they_are(value, key);
}

proof fn users_text_is_found(value: JsonView, user: JsonView, key: Seq<char>, text: Seq<char>)
    requires
        !has_text(value, key),
        value.get("user"@) == Some(user),
        user.get(key) == Some(JsonView::Text(text)),
    ensures
        profile_text(value, key) == Some(text),
{
    values_are_taken_for_what_they_are(value, key);
    values_are_taken_for_what_they_are(user, key);
}

proof fn missing_text_is_not_found(value: JsonView, key: Seq<char>)
    requires
        !has_text(value, key),
        !user_has_text(value, key),
    ensures
        profile_text(value, key) is None,
{
    values_are_taken_for_what_they_are(value, key);
    if let Some(user) = value.get("user"@) {
        values_are_taken_for_what_they_are(user, key);
    }
}

/// A text at the top level of the profile wins, whatever the member `user` is.
pub proof fn own_fields_win(value: JsonView, text: Seq<char>)
    requires
        value is Object,
    ensures
        profile_of(value) is Ok,
        value.get("name"@) == Some(JsonView::Text(text)) ==> profile_of(value)->Ok_0.display_name
            == clipped(Some(text)),
        value.get("email"@) == Some(JsonView::Text(text)) ==> profile_of(value)->Ok_0.email
            == clipped(Some(text)),
{
    if value.get("name"@) == Some(JsonView::Text(text)) {
        own_text_is_found(value, "name"@, text);
    }
    if value.get("email"@) == Some(JsonView::Text(text)) {
        own_text_is_found(value, "email"@, text);
    }
}

/// Where the top level has no such text, that of the member `user` is taken.
pub proof fn users_fields_fill_in(value: JsonView, user: JsonView, text: Seq<char>)
    requires
        value is Object,
        value.get("user"@) == Some(user),
    ensures
        !has_text(value, "name"@) && user.get("name"@) == Some(JsonView::Text(text)) ==> profile_of(
            value,
        )->Ok_0.display_name == clipped(Some(text)),
        !has_text(value, "email"@) && user.get("email"@) == Some(JsonView::Text(text))
            ==> profile_of(value)->Ok_0.email == clipped(Some(text)),
{
    if !has_text(value, "name"@) && user.get("name"@) == Some(JsonView::Text(text)) {
        users_text_is_found(value, user, "name"@, text);
    }
    if !has_text(value, "email"@) && user.get("email"@) == Some(JsonView::Text(text)) {
        users_text_is_found(value, user, "email"@, text);
    }
}

/// Where no name is given at either level, the display name is taken, that of the top level first.
pub proof fn display_name_fills_in(value: JsonView, text: Seq<char>)
    requires
        value is Object,
        !has_text(value, "name"@),
        !user_has_text(value, "name"@),
    ensures
        value.get("display_name"@) == Some(JsonView::Text(text)) ==> profile_of(
            value,
        )->Ok_0.display_name == clipped(Some(text)),
        forall|user: JsonView|
            !has_text(value, "display_name"@) && #[trigger] value.get("user"@) == Some(user)
                && user.get("display_name"@) == Some(JsonView::Text(text)) ==> profile_of(
                value,
            )->Ok_0.display_name == clipped(Some(text)),
        !has_text(value, "display_name"@) && !user_has_text(value, "display_name"@) ==> profile_of(
            value,
        )->Ok_0.display_name is None,
{
    missing_text_is_not_found(value, "name"@);
    if value.get("display_name"@) == Some(JsonView::Text(text)) {
        own_text_is_found(value, "display_name"@, text);
    }
    if !has_text(value, "display_name"@) {
        if user_has_text(value, "display_name"@) {
            let user = value.get("user"@)->0;
            if user.get("display_name"@) == Some(JsonView::Text(text)) {
                users_text_is_found(value, user, "display_name"@, text);
            }
        } else {
            missing_text_is_not_found(value, "display_name"@);
        }
    }
}

/// A profile without an address has none, and what is no object is no profile.
pub proof fn missing_profile_is_missing(value: JsonView)
    ensures
        value is Object && !has_text(value, "email"@) && !user_has_text(value, "email"@)
            ==> profile_of(value)->Ok_0.email is None,
        !(value is Object) ==> profile_of(value) == Err::<ProfileView, AiPassError>(
            AiPassError::ProfileInvalid,
        ),
{
    if value is Object && !has_text(value, "email"@) && !user_has_text(value, "email"@) {
        missing_text_is_not_found(value, "email"@);
    }
}

/// The body of a reply with a profile is judged by its document; a body that holds none is refused.
pub proof fn profile_body_is_judged_by_its_document(body: Seq<u8>)
    ensures
        json_document(body) matches Some(value) ==> profile_of_body(body) == profile_of(value),
        json_document(body) is None ==> profile_of_body(body) == Err::<ProfileView, AiPassError>(
            AiPassError::ProfileInvalid,
        ),
{
}

/// The view of a profile shows all of it.
pub proof fn view_of_profile_shows_all(profile: Profile)
    ensures
        profile@.display_name == optional_text(profile.display_name),
        profile@.email == optional_text(profile.email),
        unknown_profile().display_name is None,
        unknown_profile().email is None,
{
}

} // verus!
