//! The tokens of a connection: how they are read from the service's replies, kept, renewed and
//! given back.
use crate::clock::{clock_gave, current_reading};
use crate::error::{viewed, AiPassError};
use crate::form::{encode_form, form_pairs, form_read, form_reads_back, pair, pair_texts};
use crate::json::{
    json_bytes, json_document, lookup, member_names, member_views, members_are_found_by_name,
    ordered, ordered_names_are_distinct, parse_json, plain, precedes_at, tidy,
    values_are_taken_for_what_they_are, view_of_parts, without, write_json, written_depth, Json,
    JsonView,
};
use crate::limits::{KEYCHAIN_ITEM_NOT_FOUND, MAX_TOKEN_BYTES, REQUIRED_SCOPE};
use crate::profile::{unknown_profile, Profile, ProfileView};
use crate::secrets::{wipe_bytes, wipe_text};
use crate::text::{
    ascii_blank, ascii_lowered, blank_parts_words, bounded, bounds_count_bytes, contains_str,
    eq_ignore_ascii_case, is_bounded, optional_str, optional_text, split_words, words, Blanks,
};
use crate::transfer::{is_success, success};
use vstd::prelude::*;
use vstd::utf8::*;

verus! {

/// The number of bytes that a token may have.
pub const MAX_TOKEN_TEXT_BYTES: usize = 16384;

/// The number of bytes that a scope may have.
pub const MAX_SCOPE_BYTES: usize = 4096;

/// The longest lifetime of an access token, one year.
pub const MAX_LIFETIME_SECONDS: u64 = 31536000;

/// How long before its end an access token is renewed.
pub const RENEWAL_MARGIN_SECONDS: u64 = 60;

/// The tokens of a connection.
pub struct TokenBundle {
    pub access_token: String,
    pub refresh_token: String,
    pub expires_at_epoch_seconds: u64,
    pub scope: Option<String>,
    pub profile: Profile,
}

/// The tokens of a connection as mathematics.
pub struct TokenView {
    pub access_token: Seq<char>,
    pub refresh_token: Seq<char>,
    pub expires_at_epoch_seconds: u64,
    pub scope: Option<Seq<char>>,
    pub profile: ProfileView,
}

impl View for TokenBundle {
    type V = TokenView;

    open spec fn view(&self) -> TokenView {
        TokenView {
            access_token: self.access_token@,
            refresh_token: self.refresh_token@,
            expires_at_epoch_seconds: self.expires_at_epoch_seconds,
            scope: optional_text(self.scope),
            profile: self.profile@,
        }
    }
}

fn wipe_optional(text: &mut Option<String>)
    ensures
        *final(text) is None,
{
    match text.take() {
        Some(mut inner) => {
            wipe_text(&mut inner);
        },
        None => {},
    }
}

impl TokenBundle {
    /// Wipes the tokens, their lifetime and their scope; the profile stays.
    pub fn wipe(&mut self)
        ensures
            final(self)@.access_token == Seq::<char>::empty(),
            final(self)@.refresh_token == Seq::<char>::empty(),
            final(self)@.expires_at_epoch_seconds == 0,
            final(self)@.scope is None,
            final(self).profile == old(self).profile,
    {
        wipe_text(&mut self.access_token);
        wipe_text(&mut self.refresh_token);
        self.expires_at_epoch_seconds = 0;
        wipe_optional(&mut self.scope);
    }

    /// The bundle with another profile.
    pub fn with_profile(self, profile: Profile) -> (r: Self)
        ensures
            r == (TokenBundle { profile, ..self }),
    {
        TokenBundle { profile, ..self }
    }
}

/// The texts that a token reply hands over, taken out of it one after another.
struct TokenResponseSecrets {
    access_token: Option<String>,
    refresh_token: Option<String>,
    scope: Option<String>,
}

impl TokenResponseSecrets {
    /// Wipes the texts.
    fn wipe(&mut self)
        ensures
            final(self).access_token is None,
            final(self).refresh_token is None,
            final(self).scope is None,
    {
        wipe_optional(&mut self.access_token);
        wipe_optional(&mut self.refresh_token);
        wipe_optional(&mut self.scope);
    }
}

/// The member `key` is a text or not there.
pub open spec fn text_or_absent(value: JsonView, key: Seq<char>) -> bool {
    value.get(key) matches Some(member) ==> member is Text
}

/// Takes the text `field` out of an object.
pub fn take_token_string(object: &mut Json, field: &str) -> (r: Result<Option<String>, AiPassError>)
    ensures
        final(object)@ == old(object)@.removed(field@),
        r is Ok <==> text_or_absent(old(object)@, field@),
        r matches Ok(text) ==> optional_text(text) == old(object)@.text_at(field@),
        r matches Err(error) ==> error == AiPassError::TokenResponseInvalid,
{
    match object.remove(field) {
        Some(Json::Text(value)) => Ok(Some(value)),
        Some(_) => Err(AiPassError::TokenResponseInvalid),
        None => Ok(None),
    }
}

/// The scope grants what this client needs.
pub open spec fn granted(scope: Seq<char>) -> bool {
    &&& words(scope, Blanks::Ascii).contains("api:access"@)
    &&& words(scope, Blanks::Ascii).contains("profile:read"@)
}

/// Whether the scope grants what this client needs.
pub fn is_granted(scope: &str) -> (r: bool)
    ensures
        r == granted(scope@),
{
    let list = split_words(scope, Blanks::Ascii);
    contains_str(&list, "api:access") && contains_str(&list, "profile:read")
}

/// The first, or else the second.
pub open spec fn or_else(first: Option<Seq<char>>, second: Option<Seq<char>>) -> Option<Seq<char>> {
    match first {
        Some(text) => Some(text),
        None => second,
    }
}

/// Why a token reply is refused, if it is: the first reason in this order. `now` is the reading of
/// the clock, which may be missing; the earlier tokens are those that the reply renews.
pub open spec fn token_failure(
    value: JsonView,
    previous_refresh_token: Option<Seq<char>>,
    previous_scope: Option<Seq<char>>,
    now: Option<u64>,
) -> Option<AiPassError> {
    let access = value.text_at("access_token"@);
    let refresh = value.text_at("refresh_token"@);
    let scope = value.text_at("scope"@);
    let lifetime = value.unsigned_at("expires_in"@);
    if !(value is Object) || !text_or_absent(value, "access_token"@) || !text_or_absent(
        value,
        "refresh_token"@,
    ) || !text_or_absent(value, "scope"@) {
        Some(AiPassError::TokenResponseInvalid)
    } else if !(access matches Some(token) && bounded(token, MAX_TOKEN_TEXT_BYTES)) {
        Some(AiPassError::AccessTokenInvalid)
    } else if refresh matches Some(token) && !bounded(token, MAX_TOKEN_TEXT_BYTES) {
        Some(AiPassError::RefreshTokenInvalid)
    } else if or_else(refresh, previous_refresh_token) is None {
        Some(AiPassError::RefreshTokenMissing)
    } else if !(value.text_at("token_type"@) matches Some(kind) && ascii_lowered(kind)
        == "bearer"@) {
        Some(AiPassError::TokenTypeUnsupported)
    } else if !(lifetime matches Some(seconds) && 0 < seconds <= MAX_LIFETIME_SECONDS) {
        Some(AiPassError::TokenLifetimeInvalid)
    } else if now is None {
        Some(AiPassError::ClockUnavailable)
    } else if scope matches Some(scope) && !bounded(scope, MAX_SCOPE_BYTES) {
        Some(AiPassError::ScopeInvalid)
    } else if or_else(scope, previous_scope) is None {
        Some(AiPassError::ScopeMissing)
    } else if !granted(or_else(scope, previous_scope)->0) {
        Some(AiPassError::ScopeNotGranted)
    } else {
        None
    }
}

/// What becomes of a token reply: the tokens of the reply, with the earlier refresh token and
/// scope where it has none of its own, or the reason for which it is refused.
pub open spec fn token_outcome(
    value: JsonView,
    previous_refresh_token: Option<Seq<char>>,
    previous_scope: Option<Seq<char>>,
    now: Option<u64>,
) -> Result<TokenView, AiPassError> {
    match token_failure(value, previous_refresh_token, previous_scope, now) {
        Some(error) => Err(error),
        None => Ok(
            TokenView {
                access_token: value.text_at("access_token"@)->0,
                refresh_token: or_else(value.text_at("refresh_token"@), previous_refresh_token)->0,
                expires_at_epoch_seconds: saturating_sum(
                    now->0,
                    value.unsigned_at("expires_in"@)->0,
                ),
                scope: or_else(value.text_at("scope"@), previous_scope),
                profile: unknown_profile(),
            },
        ),
    }
}

/// `a + b`, or the largest number where that is larger.
pub open spec fn saturating_sum(a: u64, b: u64) -> u64 {
    if a + b <= u64::MAX {
        (a + b) as u64
    } else {
        u64::MAX
    }
}

/// What a token reply holds after its secrets have been taken out. The taking stops at the first
/// of them that is not a text.
pub open spec fn stripped(value: JsonView) -> JsonView {
    if !(value is Object) {
        value
    } else {
        let first = value.removed("access_token"@);
        let second = first.removed("refresh_token"@);
        if !text_or_absent(value, "access_token"@) {
            first
        } else if !text_or_absent(value, "refresh_token"@) {
            second
        } else {
            second.removed("scope"@)
        }
    }
}

/// Taking one member out of an object leaves every other one as it was.
pub proof fn removal_keeps_others(value: JsonView, key: Seq<char>, other: Seq<char>)
    requires
        key != other,
    ensures
        value.removed(key).get(other) == value.get(other),
{
    if let JsonView::Object(members) = value {
        removal_keeps_other_members(members, key, other);
    }
}

proof fn removal_keeps_other_members(
    members: Seq<(Seq<char>, JsonView)>,
    key: Seq<char>,
    other: Seq<char>,
)
    requires
        key != other,
    ensures
        lookup(without(members, key), other) == lookup(members, other),
    decreases members.len(),
{
    if members.len() > 0 && members[0].0 != key {
        removal_keeps_other_members(members.drop_first(), key, other);
        let rest = without(members.drop_first(), key);
        assert((seq![members[0]] + rest).drop_first() == rest);
    }
}

/// A member that is taken out of an object is gone, where no two members have one name.
proof fn removal_removes(members: Seq<(Seq<char>, JsonView)>, key: Seq<char>)
    requires
        member_names(members).no_duplicates(),
    ensures
        lookup(without(members, key), key) is None,
    decreases members.len(),
{
    let names = member_names(members);
    if members.len() > 0 {
        let rest = members.drop_first();
        assert(member_names(rest) =~= names.drop_first());
        if members[0].0 == key {
            assert forall|i: int| 0 <= i < rest.len() implies (#[trigger] rest[i]).0 != key by {
                assert(names[0] == key && names[i + 1] == rest[i].0);
            }
            absent_name_is_not_found(rest, key);
        } else {
            removal_removes(rest, key);
            let left = without(rest, key);
            assert((seq![members[0]] + left).drop_first() =~= left);
        }
    }
}

proof fn absent_name_is_not_found(members: Seq<(Seq<char>, JsonView)>, key: Seq<char>)
    requires
        forall|i: int| 0 <= i < members.len() ==> (#[trigger] members[i]).0 != key,
    ensures
        lookup(members, key) is None,
    decreases members.len(),
{
    if members.len() > 0 {
        let rest = members.drop_first();
        assert forall|i: int| 0 <= i < rest.len() implies (#[trigger] rest[i]).0 != key by {
            assert(rest[i] == members[i + 1]);
        }
        absent_name_is_not_found(rest, key);
    }
}

proof fn removal_keeps_names_distinct(members: Seq<(Seq<char>, JsonView)>, key: Seq<char>)
    requires
        member_names(members).no_duplicates(),
    ensures
        member_names(without(members, key)).no_duplicates(),
        forall|name: Seq<char>| #[trigger]
            member_names(without(members, key)).contains(name) ==> member_names(members).contains(
                name,
            ),
    decreases members.len(),
{
    let names = member_names(members);
    if members.len() > 0 {
        let rest = members.drop_first();
        assert(member_names(rest) =~= names.drop_first());
        removal_keeps_names_distinct(rest, key);
        let left = without(members, key);
        assert forall|name: Seq<char>| member_names(rest).contains(name) implies names.contains(
            name,
        ) by {
            let i = choose|i: int| 0 <= i < rest.len() && member_names(rest)[i] == name;
            assert(names[i + 1] == name);
        }
        if members[0].0 == key {
            assert(left =~= rest);
        } else {
            let tail = member_names(without(rest, key));
            assert(member_names(left) =~= seq![members[0].0] + tail);
            assert(!member_names(rest).contains(members[0].0)) by {
                if member_names(rest).contains(members[0].0) {
                    let i = choose|i: int|
                        0 <= i < rest.len() && member_names(rest)[i] == members[0].0;
                    assert(names[i + 1] == names[0]);
                }
            }
            assert(!tail.contains(members[0].0));
            assert forall|i: int, j: int|
                0 <= i < left.len() && 0 <= j < left.len() && i
                    != j implies member_names(left)[i] != member_names(left)[j] by {
                if i == 0 {
                    assert(tail.contains(tail[j - 1]));
                } else if j == 0 {
                    assert(tail.contains(tail[i - 1]));
                }
            }
            assert forall|name: Seq<char>| member_names(left).contains(name) implies names.contains(
                name,
            ) by {
                let i = choose|i: int| 0 <= i < left.len() && member_names(left)[i] == name;
                if i == 0 {
                    assert(names[0] == name);
                } else {
                    assert(tail[i - 1] == name);
                    assert(tail.contains(name));
                }
            }
        }
    }
}

/// A token reply whose secrets are texts keeps none of them after it was read, where no two
/// members have one name.
pub proof fn read_reply_keeps_no_secret(members: Seq<(Seq<char>, JsonView)>)
    requires
        member_names(members).no_duplicates(),
        text_or_absent(JsonView::Object(members), "access_token"@),
        text_or_absent(JsonView::Object(members), "refresh_token"@),
    ensures
        ({
            let rest = stripped(JsonView::Object(members));
            &&& rest.get("access_token"@) is None
            &&& rest.get("refresh_token"@) is None
            &&& rest.get("scope"@) is None
        }),
{
    token_names_differ();
    let first = without(members, "access_token"@);
    let second = without(first, "refresh_token"@);
    removal_removes(members, "access_token"@);
    removal_keeps_names_distinct(members, "access_token"@);
    removal_removes(first, "refresh_token"@);
    removal_keeps_names_distinct(first, "refresh_token"@);
    removal_removes(second, "scope"@);
    removal_keeps_other_members(first, "refresh_token"@, "access_token"@);
    removal_keeps_other_members(second, "scope"@, "access_token"@);
    removal_keeps_other_members(second, "scope"@, "refresh_token"@);
}

/// A token reply that was read from a document keeps none of its secrets, where they are texts.
pub proof fn read_document_keeps_no_secret(value: JsonView)
    requires
        tidy(value),
        text_or_absent(value, "access_token"@),
        text_or_absent(value, "refresh_token"@),
    ensures
        stripped(value).get("access_token"@) is None,
        stripped(value).get("refresh_token"@) is None,
        stripped(value).get("scope"@) is None,
{
    if let JsonView::Object(members) = value {
        ordered_names_are_distinct(member_names(members));
        read_reply_keeps_no_secret(members);
    }
}

/// The names that a token reply is read by are distinct.
proof fn token_names_differ()
    ensures
        "access_token"@ != "refresh_token"@,
        "access_token"@ != "scope"@,
        "access_token"@ != "token_type"@,
        "access_token"@ != "expires_in"@,
        "refresh_token"@ != "scope"@,
        "refresh_token"@ != "token_type"@,
        "refresh_token"@ != "expires_in"@,
        "scope"@ != "token_type"@,
        "scope"@ != "expires_in"@,
{
    reveal_strlit("access_token");
    reveal_strlit("refresh_token");
    reveal_strlit("scope");
    reveal_strlit("token_type");
    reveal_strlit("expires_in");
    assert("access_token"@.len() == 12);
    assert("refresh_token"@.len() == 13);
    assert("scope"@.len() == 5);
    assert("token_type"@.len() == 10);
    assert("expires_in"@.len() == 10);
}

proof fn bearer_is_lowered()
    ensures
        ascii_lowered("bearer"@) == "bearer"@,
{
    reveal_strlit("bearer");
    assert(ascii_lowered("bearer"@) =~= "bearer"@);
}

/// Reads the tokens of a reply, given the reading of the clock. The secrets are taken out of the
/// reply, and wiped if it is refused.
pub fn parse_token_response_at(
    value: &mut Json,
    previous_refresh_token: Option<&str>,
    previous_scope: Option<&str>,
    now: Option<u64>,
) -> (r: Result<TokenBundle, AiPassError>)
    ensures
        viewed(r) == token_outcome(
            old(value)@,
            optional_str(previous_refresh_token),
            optional_str(previous_scope),
            now,
        ),
        final(value)@ == stripped(old(value)@),
{
    let ghost whole = value@;
    if !value.is_object() {
        return Err(AiPassError::TokenResponseInvalid);
    }
    proof {
        token_names_differ();
        removal_keeps_others(whole, "access_token"@, "refresh_token"@);
        removal_keeps_others(whole, "access_token"@, "scope"@);
        removal_keeps_others(whole, "access_token"@, "token_type"@);
        removal_keeps_others(whole, "access_token"@, "expires_in"@);
        let first = whole.removed("access_token"@);
        removal_keeps_others(first, "refresh_token"@, "scope"@);
        removal_keeps_others(first, "refresh_token"@, "token_type"@);
        removal_keeps_others(first, "refresh_token"@, "expires_in"@);
        let second = first.removed("refresh_token"@);
        removal_keeps_others(second, "scope"@, "token_type"@);
        removal_keeps_others(second, "scope"@, "expires_in"@);
    }
    let mut secrets = TokenResponseSecrets {
        access_token: None,
        refresh_token: None,
        scope: None,
    };
    match take_token_string(value, "access_token") {
        Ok(text) => {
            secrets.access_token = text;
        },
        Err(error) => {
            return Err(error);
        },
    }
    match take_token_string(value, "refresh_token") {
        Ok(text) => {
            secrets.refresh_token = text;
        },
        Err(error) => {
            secrets.wipe();
            return Err(error);
        },
    }
    match take_token_string(value, "scope") {
        Ok(text) => {
            secrets.scope = text;
        },
        Err(error) => {
            secrets.wipe();
            return Err(error);
        },
    }
    assert(taken_from(secrets, value@, whole));
    match check_tokens(&secrets, value, previous_refresh_token, previous_scope, now) {
        Err(error) => {
            secrets.wipe();
            Err(error)
        },
        Ok(expires_at_epoch_seconds) => {
            let access_token = secrets.access_token.unwrap();
            let refresh_token = match secrets.refresh_token {
                Some(token) => token,
                None => previous_refresh_token.unwrap().to_owned(),
            };
            let scope = match secrets.scope {
                Some(scope) => scope,
                None => previous_scope.unwrap().to_owned(),
            };
            Ok(
                TokenBundle {
                    access_token,
                    refresh_token,
                    expires_at_epoch_seconds,
                    scope: Some(scope),
                    profile: Profile::default(),
                },
            )
        },
    }
}

spec fn taken_from(secrets: TokenResponseSecrets, rest: JsonView, value: JsonView) -> bool {
    &&& value is Object
    &&& text_or_absent(value, "access_token"@)
    &&& text_or_absent(value, "refresh_token"@)
    &&& text_or_absent(value, "scope"@)
    &&& optional_text(secrets.access_token) == value.text_at("access_token"@)
    &&& optional_text(secrets.refresh_token) == value.text_at("refresh_token"@)
    &&& optional_text(secrets.scope) == value.text_at("scope"@)
    &&& rest.get("token_type"@) == value.get("token_type"@)
    &&& rest.get("expires_in"@) == value.get("expires_in"@)
}

/// Checks what a token reply handed over, and says when the tokens end.
fn check_tokens(
    secrets: &TokenResponseSecrets,
    rest: &Json,
    previous_refresh_token: Option<&str>,
    previous_scope: Option<&str>,
    now: Option<u64>,
) -> (r: Result<u64, AiPassError>)
    ensures
        forall|value: JsonView| #[trigger]
            taken_from(*secrets, rest@, value) ==> match token_failure(
                value,
                optional_str(previous_refresh_token),
                optional_str(previous_scope),
                now,
            ) {
                Some(error) => r == Err::<u64, AiPassError>(error),
                None => r == Ok::<u64, AiPassError>(
                    saturating_sum(now->0, value.unsigned_at("expires_in"@)->0),
                ),
            },
{
    let access_is_valid = match &secrets.access_token {
        Some(token) => is_bounded(token.as_str(), MAX_TOKEN_TEXT_BYTES),
        None => false,
    };
    if !access_is_valid {
        return Err(AiPassError::AccessTokenInvalid);
    }
    match &secrets.refresh_token {
        Some(token) => {
            if !is_bounded(token.as_str(), MAX_TOKEN_TEXT_BYTES) {
                return Err(AiPassError::RefreshTokenInvalid);
            }
        },
        None => {
            if previous_refresh_token.is_none() {
                return Err(AiPassError::RefreshTokenMissing);
            }
        },
    }
    proof {
        bearer_is_lowered();
    }
    let is_bearer = match rest.str_at("token_type") {
        Some(kind) => eq_ignore_ascii_case(kind, "bearer"),
        None => false,
    };
    if !is_bearer {
        return Err(AiPassError::TokenTypeUnsupported);
    }
    let lifetime: u64 = match rest.u64_at("expires_in") {
        Some(seconds) => seconds,
        None => 0,
    };
    if lifetime == 0 || lifetime > MAX_LIFETIME_SECONDS {
        return Err(AiPassError::TokenLifetimeInvalid);
    }
    let start: u64 = match now {
        Some(now) => now,
        None => {
            return Err(AiPassError::ClockUnavailable);
        },
    };
    let is_enough = match &secrets.scope {
        Some(scope) => {
            if !is_bounded(scope.as_str(), MAX_SCOPE_BYTES) {
                return Err(AiPassError::ScopeInvalid);
            }
            is_granted(scope.as_str())
        },
        None => match previous_scope {
            Some(scope) => is_granted(scope),
            None => {
                return Err(AiPassError::ScopeMissing);
            },
        },
    };
    if !is_enough {
        return Err(AiPassError::ScopeNotGranted);
    }
    Ok(start.saturating_add(lifetime))
}

/// Reads the tokens of a reply at the present time. The secrets are taken out of the reply, and
/// wiped if it is refused.
pub fn parse_token_response(
    value: &mut Json,
    previous_refresh_token: Option<&str>,
    previous_scope: Option<&str>,
) -> (r: Result<TokenBundle, AiPassError>)
    ensures
        exists|now: Option<u64>|
            clock_gave(now) && viewed(r) == #[trigger] token_outcome(
                old(value)@,
                optional_str(previous_refresh_token),
                optional_str(previous_scope),
                now,
            ),
        final(value)@ == stripped(old(value)@),
{
    let now = current_reading();
    parse_token_response_at(value, previous_refresh_token, previous_scope, now)
}

/// What becomes of the body of a token reply.
pub open spec fn tokens_of_body(
    body: Seq<u8>,
    previous_refresh_token: Option<Seq<char>>,
    previous_scope: Option<Seq<char>>,
    now: Option<u64>,
) -> Result<TokenView, AiPassError> {
    match json_document(body) {
        Some(value) => token_outcome(value, previous_refresh_token, previous_scope, now),
        None => Err(AiPassError::TokenResponseInvalid),
    }
}

/// Reads the tokens in the body of a reply at the present time.
pub fn parse_token_body(
    body: &[u8],
    previous_refresh_token: Option<&str>,
    previous_scope: Option<&str>,
) -> (r: Result<TokenBundle, AiPassError>)
    ensures
        exists|now: Option<u64>|
            clock_gave(now) && viewed(r) == #[trigger] tokens_of_body(
                body@,
                optional_str(previous_refresh_token),
                optional_str(previous_scope),
                now,
            ),
{
    let now = current_reading();
    match parse_json(body) {
        Ok(value) => {
            let mut value = value;
            let r = parse_token_response_at(
                &mut value,
                previous_refresh_token,
                previous_scope,
                now,
            );
            assert(viewed(r) == tokens_of_body(
                body@,
                optional_str(previous_refresh_token),
                optional_str(previous_scope),
                now,
            ));
            r
        },
        Err(_) => {
            let r = Err::<TokenBundle, AiPassError>(AiPassError::TokenResponseInvalid);
            assert(viewed(r) == tokens_of_body(
                body@,
                optional_str(previous_refresh_token),
                optional_str(previous_scope),
                now,
            ));
            r
        },
    }
}

/// Reads the reply to the request that turns a code into tokens. There are no earlier tokens; a
/// reply that leaves the scope out grants the one that was asked for.
pub fn exchange_reply(status: u16, body: &[u8]) -> (r: Result<TokenBundle, AiPassError>)
    ensures
        !success(status) ==> r == Err::<TokenBundle, AiPassError>(AiPassError::ExchangeRejected),
        success(status) ==> exists|now: Option<u64>|
            clock_gave(now) && viewed(r) == #[trigger] tokens_of_body(body@, None, Some(REQUIRED_SCOPE@), now),
{
    if !is_success(status) {
        return Err(AiPassError::ExchangeRejected);
    }
    parse_token_body(body, None, Some(REQUIRED_SCOPE))
}

/// The reply with this body, read at some time, renews the tokens with this outcome.
pub open spec fn renews(
    tokens: TokenView,
    body: Seq<u8>,
    now: Option<u64>,
    outcome: Result<TokenView, AiPassError>,
) -> bool {
    outcome == tokens_of_body(body, Some(tokens.refresh_token), tokens.scope, now)
}

/// Reads a granted reply to the request that renews `tokens`.
pub fn renewal_reply(body: &[u8], tokens: &TokenBundle) -> (r: Result<TokenBundle, AiPassError>)
    ensures
        exists|now: Option<u64>|
            clock_gave(now) && viewed(r) == #[trigger] tokens_of_body(
                body@,
                Some(tokens.refresh_token@),
                optional_text(tokens.scope),
                now,
            ),
        exists|now: Option<u64>|
            clock_gave(now) && #[trigger] renews(tokens@, body@, now, viewed(r)),
{
    let scope = match &tokens.scope {
        Some(scope) => Some(scope.as_str()),
        None => None,
    };
    let r = parse_token_body(body, Some(tokens.refresh_token.as_str()), scope);
    proof {
        let now = choose|now: Option<u64>|
            clock_gave(now) && viewed(r) == #[trigger] tokens_of_body(
                body@,
                Some(tokens.refresh_token@),
                optional_text(tokens.scope),
                now,
            );
        assert(renews(tokens@, body@, now, viewed(r)));
    }
    r
}

/// Tokens that can be used: both tokens are bounded, and the scope is known and grants what this
/// client needs.
pub open spec fn usable(tokens: TokenView) -> bool {
    &&& bounded(tokens.access_token, MAX_TOKEN_TEXT_BYTES)
    &&& bounded(tokens.refresh_token, MAX_TOKEN_TEXT_BYTES)
    &&& tokens.scope matches Some(scope) && granted(scope)
}

/// A first token reply that is accepted gives usable tokens, which end later than now, but at
/// most one year later.
pub proof fn accepted_tokens_are_usable(
    value: JsonView,
    previous_scope: Option<Seq<char>>,
    now: Option<u64>,
)
    ensures
        token_outcome(value, None, previous_scope, now) matches Ok(tokens) ==> usable(tokens)
            && tokens.expires_at_epoch_seconds <= now->0 + MAX_LIFETIME_SECONDS && (now->0
            < u64::MAX ==> now->0 < tokens.expires_at_epoch_seconds),
{
}

/// Renewing usable tokens gives usable tokens again. What the reply leaves out stays: the refresh
/// token and the scope.
pub proof fn renewal_keeps_tokens_usable(value: JsonView, tokens: TokenView, now: Option<u64>)
    requires
        usable(tokens),
    ensures
        token_outcome(value, Some(tokens.refresh_token), tokens.scope, now) matches Ok(renewed) ==> {
            &&& usable(renewed)
            &&& value.get("refresh_token"@) is None ==> renewed.refresh_token
                == tokens.refresh_token
            &&& value.get("scope"@) is None ==> renewed.scope == tokens.scope
        },
{
}

/// The scope that this client asks for grants what it needs: a reply that leaves the scope out is
/// not refused for it.
pub proof fn required_scope_is_granted()
    ensures
        granted(REQUIRED_SCOPE@),
{
    let s = REQUIRED_SCOPE@;
    reveal_strlit("api:access profile:read");
    reveal_strlit("api:access");
    reveal_strlit("profile:read");
    words_of_word(s.take(10));
    assert(s.take(10) =~= "api:access"@);
    assert(s.take(11).drop_last() =~= s.take(10));
    assert(s.take(11).last() == ' ');
    words_after_blank(s.take(11), s.skip(11));
    assert(s.skip(11) =~= "profile:read"@);
    assert(s.take(11) + s.skip(11) =~= s);
    let list = words(s, Blanks::Ascii);
    assert(list =~= seq!["api:access"@, "profile:read"@]);
    assert(list[0] == "api:access"@);
    assert(list[1] == "profile:read"@);
}

/// A text without blanks is one word.
proof fn words_of_word(s: Seq<char>)
    requires
        s.len() > 0,
        forall|i: int| 0 <= i < s.len() ==> !Blanks::Ascii.holds(#[trigger] s[i]),
    ensures
        words(s, Blanks::Ascii) == seq![s],
    decreases s.len(),
{
    let before = s.drop_last();
    if s.len() == 1 {
        assert(words(before, Blanks::Ascii) =~= seq![]);
        assert(seq![s.last()] =~= s);
    } else {
        words_of_word(before);
        assert(before.push(s.last()) =~= s);
        assert(seq![before].drop_last().push(s) =~= seq![s]);
    }
}

/// A word after a text that ends in a blank is one word more.
proof fn words_after_blank(s: Seq<char>, word: Seq<char>)
    requires
        s.len() > 0,
        Blanks::Ascii.holds(s.last()),
        word.len() > 0,
        forall|i: int| 0 <= i < word.len() ==> !Blanks::Ascii.holds(#[trigger] word[i]),
    ensures
        words(s + word, Blanks::Ascii) == words(s, Blanks::Ascii).push(word),
    decreases word.len(),
{
    let all = s + word;
    let list = words(s, Blanks::Ascii);
    if word.len() == 1 {
        assert(all.drop_last() =~= s);
        assert(all[all.len() - 2] == s.last());
        assert(seq![all.last()] =~= word);
    } else {
        let before = word.drop_last();
        words_after_blank(s, before);
        assert(all.drop_last() =~= s + before);
        assert(all[all.len() - 2] == word[word.len() - 2]);
        assert(before.push(word.last()) =~= word);
        assert(list.push(before).drop_last().push(word) =~= list.push(word));
    }
}

/// The access token has to be renewed before it is used: it is asked for, or the token ends
/// within the margin.
pub open spec fn renewal_due(expires_at: u64, now: u64, force: bool) -> bool {
    force || expires_at <= saturating_sum(now, RENEWAL_MARGIN_SECONDS)
}

/// Whether the access token has to be renewed before it is used.
pub fn is_renewal_due(expires_at: u64, now: u64, force: bool) -> (r: bool)
    ensures
        r == renewal_due(expires_at, now, force),
{
    force || expires_at <= now.saturating_add(RENEWAL_MARGIN_SECONDS)
}

/// A member whose value is a text.
fn text_member(name: &str, text: &str) -> (r: (String, Json))
    ensures
        r.0@ == name@,
        r.1@ == JsonView::Text(text@),
{
    (name.to_owned(), Json::Text(text.to_owned()))
}

/// The request that turns an authorization code into tokens.
pub open spec fn exchange_request(
    client_id: Seq<char>,
    redirect_uri: Seq<char>,
    code: Seq<char>,
    verifier: Seq<char>,
) -> JsonView {
    JsonView::Object(
        seq![
            ("clientId"@, JsonView::Text(client_id)),
            ("code"@, JsonView::Text(code)),
            ("codeVerifier"@, JsonView::Text(verifier)),
            ("grantType"@, JsonView::Text("authorization_code"@)),
            ("redirectUri"@, JsonView::Text(redirect_uri)),
        ],
    )
}

/// The body of the request that turns an authorization code into tokens.
pub fn exchange_body(client_id: &str, redirect_uri: &str, code: &str, verifier: &str) -> (r: Result<
    Vec<u8>,
    AiPassError,
>)
    ensures
        r is Ok,
        r->Ok_0@ == json_bytes(exchange_request(client_id@, redirect_uri@, code@, verifier@)),
        json_document(r->Ok_0@) == Some(
            exchange_request(client_id@, redirect_uri@, code@, verifier@),
        ),
{
    broadcast use view_of_parts;

    let mut members: Vec<(String, Json)> = Vec::new();
    members.push(text_member("clientId", client_id));
    members.push(text_member("code", code));
    members.push(text_member("codeVerifier", verifier));
    members.push(text_member("grantType", "authorization_code"));
    members.push(text_member("redirectUri", redirect_uri));
    let ghost wanted = exchange_request(client_id@, redirect_uri@, code@, verifier@);
    assert(member_views(members@) =~= wanted->Object_0);
    let json = Json::Object(members);
    proof {
        exchange_names_are_ordered();
        assert(member_names(wanted->Object_0) =~= seq![
            "clientId"@,
            "code"@,
            "codeVerifier"@,
            "grantType"@,
            "redirectUri"@,
        ]);
        reveal_with_fuel(plain, 2);
        assert(plain(json@, written_depth()));
    }
    match write_json(json) {
        Ok(bytes) => Ok(bytes),
        Err(_) => Err(AiPassError::ExchangeFailed),
    }
}

proof fn exchange_names_are_ordered()
    ensures
        ordered(seq!["clientId"@, "code"@, "codeVerifier"@, "grantType"@, "redirectUri"@]),
{
    reveal_strlit("clientId");
    reveal_strlit("code");
    reveal_strlit("codeVerifier");
    reveal_strlit("grantType");
    reveal_strlit("redirectUri");
    let names = seq!["clientId"@, "code"@, "codeVerifier"@, "grantType"@, "redirectUri"@];
    precedes_at(names[0], names[1], 1);
    precedes_at(names[0], names[2], 1);
    precedes_at(names[0], names[3], 0);
    precedes_at(names[0], names[4], 0);
    precedes_at(names[1], names[2], 4);
    precedes_at(names[1], names[3], 0);
    precedes_at(names[1], names[4], 0);
    precedes_at(names[2], names[3], 0);
    precedes_at(names[2], names[4], 0);
    precedes_at(names[3], names[4], 0);
}

/// The request that renews tokens.
pub open spec fn renewal_request(client_id: Seq<char>, refresh_token: Seq<char>) -> JsonView {
    JsonView::Object(
        seq![
            ("clientId"@, JsonView::Text(client_id)),
            ("grantType"@, JsonView::Text("refresh_token"@)),
            ("refreshToken"@, JsonView::Text(refresh_token)),
        ],
    )
}

/// The body of the request that renews tokens.
pub fn renewal_body(client_id: &str, refresh_token: &str) -> (r: Result<Vec<u8>, AiPassError>)
    ensures
        r is Ok,
        r->Ok_0@ == json_bytes(renewal_request(client_id@, refresh_token@)),
        json_document(r->Ok_0@) == Some(renewal_request(client_id@, refresh_token@)),
{
    broadcast use view_of_parts;

    let mut members: Vec<(String, Json)> = Vec::new();
    members.push(text_member("clientId", client_id));
    members.push(text_member("grantType", "refresh_token"));
    members.push(text_member("refreshToken", refresh_token));
    let ghost wanted = renewal_request(client_id@, refresh_token@);
    assert(member_views(members@) =~= wanted->Object_0);
    let json = Json::Object(members);
    proof {
        reveal_strlit("clientId");
        reveal_strlit("grantType");
        reveal_strlit("refreshToken");
        let names = seq!["clientId"@, "grantType"@, "refreshToken"@];
        precedes_at(names[0], names[1], 0);
        precedes_at(names[0], names[2], 0);
        precedes_at(names[1], names[2], 0);
        assert(ordered(names));
        assert(member_names(wanted->Object_0) =~= names);
        reveal_with_fuel(plain, 2);
        assert(plain(json@, written_depth()));
    }
    match write_json(json) {
        Ok(bytes) => Ok(bytes),
        Err(_) => Err(AiPassError::RefreshFailed),
    }
}

/// The form that gives a token back.
pub fn revocation_form(token: &str, client_id: &str) -> (r: String)
    ensures
        r@ == form_pairs(seq![("token"@, token@), ("client_id"@, client_id@)]),
        form_read(r@) == seq![("token"@, token@), ("client_id"@, client_id@)],
{
    proof {
        form_reads_back(seq![("token"@, token@), ("client_id"@, client_id@)]);
    }
    let mut pairs: Vec<(String, String)> = Vec::new();
    pairs.push(pair("token", token));
    pairs.push(pair("client_id", client_id));
    assert(pair_texts(pairs@) =~= seq![("token"@, token@), ("client_id"@, client_id@)]);
    encode_form(&pairs)
}

/// What the keychain answers to a request.
pub enum KeychainReply<T> {
    Done(T),
    /// The request failed with this code.
    Failed(i32),
}

/// Judges what the keychain answers when it is read: the encoded tokens, or nothing if it has no
/// such item. An item that is too large is wiped.
pub fn opened_item(reply: KeychainReply<Vec<u8>>) -> (r: Result<Option<Vec<u8>>, AiPassError>)
    ensures
        r == (match reply {
            KeychainReply::Done(bytes) => if bytes@.len() <= MAX_TOKEN_BYTES {
                Ok::<Option<Vec<u8>>, AiPassError>(Some(bytes))
            } else {
                Err(AiPassError::KeychainInvalid)
            },
            KeychainReply::Failed(code) => if code == KEYCHAIN_ITEM_NOT_FOUND {
                Ok(None)
            } else {
                Err(AiPassError::KeychainUnavailable)
            },
        }),
{
    match reply {
        KeychainReply::Done(bytes) => {
            if bytes.len() > MAX_TOKEN_BYTES {
                let mut bytes = bytes;
                wipe_bytes(&mut bytes);
                return Err(AiPassError::KeychainInvalid);
            }
            Ok(Some(bytes))
        },
        KeychainReply::Failed(code) => {
            if code == KEYCHAIN_ITEM_NOT_FOUND {
                Ok(None)
            } else {
                Err(AiPassError::KeychainUnavailable)
            }
        },
    }
}

/// Judges encoded tokens before they are saved. Too large ones are wiped.
pub fn sealed_item(encoded: Vec<u8>) -> (r: Result<Vec<u8>, AiPassError>)
    ensures
        r == (if encoded@.len() <= MAX_TOKEN_BYTES {
            Ok::<Vec<u8>, AiPassError>(encoded)
        } else {
            Err(AiPassError::KeychainTooLarge)
        }),
{
    if encoded.len() > MAX_TOKEN_BYTES {
        let mut encoded = encoded;
        wipe_bytes(&mut encoded);
        return Err(AiPassError::KeychainTooLarge);
    }
    Ok(encoded)
}

/// Judges what the keychain answers when tokens are saved.
pub fn saved_item(reply: KeychainReply<()>) -> (r: Result<(), AiPassError>)
    ensures
        r == (match reply {
            KeychainReply::Done(_) => Ok::<(), AiPassError>(()),
            KeychainReply::Failed(_) => Err(AiPassError::KeychainNotSaved),
        }),
{
    match reply {
        KeychainReply::Done(_) => Ok(()),
        KeychainReply::Failed(_) => Err(AiPassError::KeychainNotSaved),
    }
}

/// Judges what the keychain answers when the item is deleted. That there is none is no failure.
pub fn cleared_item(reply: KeychainReply<()>) -> (r: Result<(), AiPassError>)
    ensures
        r == (match reply {
            KeychainReply::Done(_) => Ok::<(), AiPassError>(()),
            KeychainReply::Failed(code) => if code == KEYCHAIN_ITEM_NOT_FOUND {
                Ok(())
            } else {
                Err(AiPassError::KeychainNotCleared)
            },
        }),
{
    match reply {
        KeychainReply::Done(_) => Ok(()),
        KeychainReply::Failed(code) => {
            if code == KEYCHAIN_ITEM_NOT_FOUND {
                Ok(())
            } else {
                Err(AiPassError::KeychainNotCleared)
            }
        },
    }
}

/// The words of the scope name both permissions that this client needs.
pub open spec fn names_both_permissions(scope: Seq<char>) -> bool {
    words(scope, Blanks::Ascii).contains("api:access"@) && words(scope, Blanks::Ascii).contains(
        "profile:read"@,
    )
}

/// A scope is enough exactly if it names both permissions; further words, before, between or
/// behind them, take nothing away.
pub proof fn further_permissions_do_no_harm(before: Seq<char>, blank: char, after: Seq<char>)
    requires
        ascii_blank(blank),
    ensures
        granted(before) <==> names_both_permissions(before),
        granted(before) ==> granted(before + seq![blank] + after),
        granted(after) ==> granted(before + seq![blank] + after),
{
    blank_parts_words(before, blank, after, Blanks::Ascii);
    let (first, second) = (words(before, Blanks::Ascii), words(after, Blanks::Ascii));
    let all = first + second;
    assert forall|word: Seq<char>| first.contains(word) || second.contains(
        word,
    ) implies all.contains(word) by {
        if first.contains(word) {
            let i = choose|i: int| 0 <= i < first.len() && first[i] == word;
            assert(all[i] == word);
        } else {
            let i = choose|i: int| 0 <= i < second.len() && second[i] == word;
            assert(all[first.len() + i] == word);
        }
    }
}

/// The member is a text of 1 to so many bytes.
pub open spec fn has_bounded_text(value: JsonView, key: Seq<char>, limit: nat) -> bool {
    value.get(key) matches Some(JsonView::Text(text)) && 1 <= encode_utf8(text).len() <= limit
}

/// The member is not there, or is a text.
pub open spec fn absent_or_text(value: JsonView, key: Seq<char>) -> bool {
    value.get(key) is None || value.get(key) matches Some(JsonView::Text(_))
}

/// The reply says that the token is a bearer token, in whatever case.
pub open spec fn says_bearer(value: JsonView) -> bool {
    value.get("token_type"@) matches Some(JsonView::Text(kind)) && ascii_lowered(kind) == "bearer"@
}

/// The reply gives a lifetime of one second to one year.
pub open spec fn has_lifetime(value: JsonView) -> bool {
    value.get("expires_in"@) matches Some(JsonView::Number(Some(seconds))) && 1 <= seconds
        <= 31536000
}

/// The text that holds after the reply: its own, or else the earlier one.
pub open spec fn holding(
    value: JsonView,
    key: Seq<char>,
    earlier: Option<Seq<char>>,
) -> Option<Seq<char>> {
    match value.get(key) {
        Some(JsonView::Text(text)) => Some(text),
        _ => earlier,
    }
}

proof fn reply_texts(value: JsonView)
    ensures
        forall|key: Seq<char>| #[trigger]
            text_or_absent(value, key) <==> absent_or_text(value, key),
        forall|key: Seq<char>, earlier: Option<Seq<char>>|
            absent_or_text(value, key) ==> #[trigger] or_else(value.text_at(key), earlier)
                == holding(value, key, earlier),
{
    assert forall|key: Seq<char>, earlier: Option<Seq<char>>|
        absent_or_text(value, key) implies #[trigger] or_else(value.text_at(key), earlier)
        == holding(value, key, earlier) by {
        values_are_taken_for_what_they_are(value, key);
    }
}

proof fn bounded_member(value: JsonView, key: Seq<char>, limit: usize)
    ensures
        has_bounded_text(value, key, limit as nat) <==> (value.text_at(key) matches Some(text)
            && bounded(text, limit)),
{
    values_are_taken_for_what_they_are(value, key);
    if let Some(text) = value.text_at(key) {
        bounds_count_bytes(text, limit);
    }
    if let Some(JsonView::Text(text)) = value.get(key) {
        bounds_count_bytes(text, limit);
    }
}

/// A reply with a bounded access token, a bearer type, a lifetime, and a refresh token and a scope
/// of its own or from earlier, is accepted, whatever else it holds. The tokens are those of the
/// reply; they end the lifetime after the reading of the clock, whenever the earlier ones end.
pub proof fn good_token_reply_is_accepted(
    value: JsonView,
    previous_refresh_token: Option<Seq<char>>,
    previous_scope: Option<Seq<char>>,
    now: u64,
    access_token: Seq<char>,
    seconds: u64,
)
    requires
        value.get("access_token"@) == Some(JsonView::Text(access_token)),
        1 <= encode_utf8(access_token).len() <= 16384,
        has_bounded_text(value, "refresh_token"@, 16384) || (value.get("refresh_token"@) is None
            && previous_refresh_token is Some),
        says_bearer(value),
        value.get("expires_in"@) == Some(JsonView::Number(Some(seconds))),
        1 <= seconds <= 31536000,
        has_bounded_text(value, "scope"@, 4096) || (value.get("scope"@) is None && previous_scope
            is Some),
        names_both_permissions(holding(value, "scope"@, previous_scope)->0),
    ensures
        ({
            let r = token_outcome(value, previous_refresh_token, previous_scope, Some(now));
            &&& r matches Ok(tokens)
            &&& tokens.access_token == access_token
            &&& Some(tokens.refresh_token) == holding(
                value,
                "refresh_token"@,
                previous_refresh_token,
            )
            &&& tokens.scope == holding(value, "scope"@, previous_scope)
            &&& tokens.expires_at_epoch_seconds == (if now + seconds <= u64::MAX {
                now + seconds
            } else {
                u64::MAX as int
            })
            &&& tokens.profile.display_name is None && tokens.profile.email is None
        }),
{
    reply_texts(value);
    bounded_member(value, "access_token"@, MAX_TOKEN_TEXT_BYTES);
    bounded_member(value, "refresh_token"@, MAX_TOKEN_TEXT_BYTES);
    bounded_member(value, "scope"@, MAX_SCOPE_BYTES);
    values_are_taken_for_what_they_are(value, "access_token"@);
    values_are_taken_for_what_they_are(value, "refresh_token"@);
    values_are_taken_for_what_they_are(value, "scope"@);
    values_are_taken_for_what_they_are(value, "token_type"@);
    values_are_taken_for_what_they_are(value, "expires_in"@);
    assert(text_or_absent(value, "access_token"@));
    assert(text_or_absent(value, "refresh_token"@));
    assert(text_or_absent(value, "scope"@));
    assert(value.text_at("access_token"@) == Some(access_token));
    assert(value.unsigned_at("expires_in"@) == Some(seconds));
    let kind = value.get("token_type"@)->0->Text_0;
    assert(value.text_at("token_type"@) == Some(kind));
    assert(or_else(value.text_at("refresh_token"@), previous_refresh_token) == holding(
        value,
        "refresh_token"@,
        previous_refresh_token,
    ));
    assert(or_else(value.text_at("scope"@), previous_scope) == holding(
        value,
        "scope"@,
        previous_scope,
    ));
}

/// A token reply is refused for the first fault that it has, in this order: it is no object or a
/// secret of it is no text; the access token; the refresh token; no refresh token at all; the type;
/// the lifetime; a clock that gives no reading; the scope; no scope at all; the permissions.
pub proof fn bad_token_reply_is_refused_for_its_fault(
    value: JsonView,
    previous_refresh_token: Option<Seq<char>>,
    previous_scope: Option<Seq<char>>,
    now: Option<u64>,
)
    ensures
        ({
            let r = token_outcome(value, previous_refresh_token, previous_scope, now);
            let form = value is Object && absent_or_text(value, "access_token"@) && absent_or_text(
                value,
                "refresh_token"@,
            ) && absent_or_text(value, "scope"@);
            let access = has_bounded_text(value, "access_token"@, 16384);
            let refresh = value.get("refresh_token"@) is None || has_bounded_text(
                value,
                "refresh_token"@,
                16384,
            );
            let renewable = holding(value, "refresh_token"@, previous_refresh_token) is Some;
            let scope = value.get("scope"@) is None || has_bounded_text(value, "scope"@, 4096);
            let scoped = holding(value, "scope"@, previous_scope) is Some;
            if !form {
                r == Err::<TokenView, AiPassError>(AiPassError::TokenResponseInvalid)
            } else if !access {
                r == Err::<TokenView, AiPassError>(AiPassError::AccessTokenInvalid)
            } else if !refresh {
                r == Err::<TokenView, AiPassError>(AiPassError::RefreshTokenInvalid)
            } else if !renewable {
                r == Err::<TokenView, AiPassError>(AiPassError::RefreshTokenMissing)
            } else if !says_bearer(value) {
                r == Err::<TokenView, AiPassError>(AiPassError::TokenTypeUnsupported)
            } else if !has_lifetime(value) {
                r == Err::<TokenView, AiPassError>(AiPassError::TokenLifetimeInvalid)
            } else if now is None {
                r == Err::<TokenView, AiPassError>(AiPassError::ClockUnavailable)
            } else if !scope {
                r == Err::<TokenView, AiPassError>(AiPassError::ScopeInvalid)
            } else if !scoped {
                r == Err::<TokenView, AiPassError>(AiPassError::ScopeMissing)
            } else if !names_both_permissions(holding(value, "scope"@, previous_scope)->0) {
                r == Err::<TokenView, AiPassError>(AiPassError::ScopeNotGranted)
            } else {
                r is Ok
            }
        }),
{
    reply_texts(value);
    bounded_member(value, "access_token"@, MAX_TOKEN_TEXT_BYTES);
    bounded_member(value, "refresh_token"@, MAX_TOKEN_TEXT_BYTES);
    bounded_member(value, "scope"@, MAX_SCOPE_BYTES);
    values_are_taken_for_what_they_are(value, "refresh_token"@);
    values_are_taken_for_what_they_are(value, "scope"@);
    values_are_taken_for_what_they_are(value, "token_type"@);
    values_are_taken_for_what_they_are(value, "expires_in"@);
    assert(text_or_absent(value, "access_token"@) <==> absent_or_text(value, "access_token"@));
    assert(text_or_absent(value, "refresh_token"@) <==> absent_or_text(value, "refresh_token"@));
    assert(text_or_absent(value, "scope"@) <==> absent_or_text(value, "scope"@));
    if let Some(kind) = value.text_at("token_type"@) {
        assert(value.get("token_type"@) == Some(JsonView::Text(kind)));
    }
    if let Some(JsonView::Text(kind)) = value.get("token_type"@) {
        assert(value.text_at("token_type"@) == Some(kind));
    }
    if let Some(seconds) = value.unsigned_at("expires_in"@) {
        assert(value.get("expires_in"@) == Some(JsonView::Number(Some(seconds))));
    }
    if let Some(JsonView::Number(Some(seconds))) = value.get("expires_in"@) {
        assert(value.unsigned_at("expires_in"@) == Some(seconds));
    }
    if let Some(token) = value.text_at("refresh_token"@) {
        assert(value.get("refresh_token"@) == Some(JsonView::Text(token)));
    }
    if let Some(text) = value.text_at("scope"@) {
        assert(value.get("scope"@) == Some(JsonView::Text(text)));
    }
}

/// The access token is renewed when that is asked for, or when it ends within sixty seconds of now.
pub proof fn renewal_is_due_a_minute_before_the_end(expires_at: u64, now: u64)
    ensures
        renewal_due(expires_at, now, true),
        now + 60 < expires_at ==> !renewal_due(expires_at, now, false),
        expires_at <= now + 60 ==> renewal_due(expires_at, now, false),
{
}

/// The request that turns a code into tokens hands over the client, the code, the proof key and the
/// address, and nothing else.
pub proof fn exchange_request_holds(
    client_id: Seq<char>,
    redirect_uri: Seq<char>,
    code: Seq<char>,
    verifier: Seq<char>,
)
    ensures
        ({
            let request = exchange_request(client_id, redirect_uri, code, verifier);
            &&& request matches JsonView::Object(members) && members.len() == 5
            &&& request.get("grantType"@) == Some(JsonView::Text("authorization_code"@))
            &&& request.get("clientId"@) == Some(JsonView::Text(client_id))
            &&& request.get("code"@) == Some(JsonView::Text(code))
            &&& request.get("codeVerifier"@) == Some(JsonView::Text(verifier))
            &&& request.get("redirectUri"@) == Some(JsonView::Text(redirect_uri))
        }),
{
    let members = exchange_request(client_id, redirect_uri, code, verifier)->Object_0;
    exchange_names_are_ordered();
    let names = seq!["clientId"@, "code"@, "codeVerifier"@, "grantType"@, "redirectUri"@];
    assert(member_names(members) =~= names);
    ordered_names_are_distinct(names);
    members_are_found_by_name(members, "grantType"@);
    members_are_found_by_name(members, "clientId"@);
    members_are_found_by_name(members, "code"@);
    members_are_found_by_name(members, "codeVerifier"@);
    members_are_found_by_name(members, "redirectUri"@);
    assert(members[0].0 == "clientId"@ && members[1].0 == "code"@ && members[2].0
        == "codeVerifier"@ && members[3].0 == "grantType"@ && members[4].0 == "redirectUri"@);
}

/// The request that renews tokens hands over the client and the refresh token, and nothing else.
pub proof fn renewal_request_holds(client_id: Seq<char>, refresh_token: Seq<char>)
    ensures
        ({
            let request = renewal_request(client_id, refresh_token);
            &&& request matches JsonView::Object(members) && members.len() == 3
            &&& request.get("grantType"@) == Some(JsonView::Text("refresh_token"@))
            &&& request.get("clientId"@) == Some(JsonView::Text(client_id))
            &&& request.get("refreshToken"@) == Some(JsonView::Text(refresh_token))
        }),
{
    let members = renewal_request(client_id, refresh_token)->Object_0;
    let names = seq!["clientId"@, "grantType"@, "refreshToken"@];
    reveal_strlit("clientId");
    reveal_strlit("grantType");
    reveal_strlit("refreshToken");
    precedes_at(names[0], names[1], 0);
    precedes_at(names[0], names[2], 0);
    precedes_at(names[1], names[2], 0);
    assert(member_names(members) =~= names);
    ordered_names_are_distinct(names);
    members_are_found_by_name(members, "grantType"@);
    members_are_found_by_name(members, "clientId"@);
    members_are_found_by_name(members, "refreshToken"@);
    assert(members[0].0 == "clientId"@ && members[1].0 == "grantType"@ && members[2].0
        == "refreshToken"@);
}

/// The body of a token reply is judged by its document; a body that holds none is refused.
pub proof fn token_body_is_judged_by_its_document(
    body: Seq<u8>,
    previous_refresh_token: Option<Seq<char>>,
    previous_scope: Option<Seq<char>>,
    now: Option<u64>,
)
    ensures
        json_document(body) matches Some(value) ==> tokens_of_body(
            body,
            previous_refresh_token,
            previous_scope,
            now,
        ) == token_outcome(value, previous_refresh_token, previous_scope, now),
        json_document(body) is None ==> tokens_of_body(
            body,
            previous_refresh_token,
            previous_scope,
            now,
        ) == Err::<TokenView, AiPassError>(AiPassError::TokenResponseInvalid),
{
}

/// A renewal is the reading of its reply against the refresh token and the scope of the tokens that
/// it renews: where these are the same, nothing else of the earlier tokens matters, neither their
/// access token nor their end nor their profile.
pub proof fn renewal_rests_on_refresh_token_and_scope(
    tokens: TokenView,
    others: TokenView,
    body: Seq<u8>,
    now: Option<u64>,
    outcome: Result<TokenView, AiPassError>,
)
    requires
        tokens.refresh_token == others.refresh_token,
        tokens.scope == others.scope,
    ensures
        renews(tokens, body, now, outcome) <==> renews(others, body, now, outcome),
        renews(tokens, body, now, outcome) <==> outcome == tokens_of_body(
            body,
            Some(tokens.refresh_token),
            tokens.scope,
            now,
        ),
{
}

/// The view of tokens shows all of them.
pub proof fn view_of_tokens_shows_all(tokens: TokenBundle)
    ensures
        tokens@.access_token == tokens.access_token@,
        tokens@.refresh_token == tokens.refresh_token@,
        tokens@.expires_at_epoch_seconds == tokens.expires_at_epoch_seconds,
        tokens@.scope == optional_text(tokens.scope),
        tokens@.profile == tokens.profile@,
{
}

/// Reading a token reply takes out its secrets and leaves every other member as it was.
pub proof fn reading_leaves_other_members(value: JsonView, key: Seq<char>)
    requires
        key != "access_token"@,
        key != "refresh_token"@,
        key != "scope"@,
    ensures
        stripped(value).get(key) == value.get(key),
        !(value is Object) ==> stripped(value) == value,
{
    let first = value.removed("access_token"@);
    let second = first.removed("refresh_token"@);
    removal_keeps_others(value, "access_token"@, key);
    removal_keeps_others(first, "refresh_token"@, key);
    removal_keeps_others(second, "scope"@, key);
}

} // verus!
