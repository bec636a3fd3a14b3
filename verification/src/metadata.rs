//! The service's published OAuth metadata: which endpoints to use, and whether to trust them.
use crate::address::{
    endpoint_is_pinned_https, every_path_on_the_host_is_pinned, pinned_text, url_of,
};
use crate::error::{viewed, AiPassError};
use crate::json::{
    item_views, json_document, parse_json, values_are_taken_for_what_they_are, view_of_parts, Json,
    JsonView,
};
use crate::limits::EXPECTED_ISSUER;
use crate::text::str_eq;
use crate::transfer::{is_success, success};
use vstd::prelude::*;

verus! {

/// The endpoints of the service.
pub struct OAuthMetadata {
    pub issuer: String,
    pub authorization_endpoint: String,
    pub token_endpoint: String,
    pub userinfo_endpoint: String,
    pub revocation_endpoint: String,
}

/// The endpoints of the service as mathematics.
pub struct MetadataView {
    pub issuer: Seq<char>,
    pub authorization_endpoint: Seq<char>,
    pub token_endpoint: Seq<char>,
    pub userinfo_endpoint: Seq<char>,
    pub revocation_endpoint: Seq<char>,
}

impl View for OAuthMetadata {
    type V = MetadataView;

    open spec fn view(&self) -> MetadataView {
        MetadataView {
            issuer: self.issuer@,
            authorization_endpoint: self.authorization_endpoint@,
            token_endpoint: self.token_endpoint@,
            userinfo_endpoint: self.userinfo_endpoint@,
            revocation_endpoint: self.revocation_endpoint@,
        }
    }
}

/// The value is an array that holds the text `expected`.
pub open spec fn holds_text(value: JsonView, expected: Seq<char>) -> bool {
    value.items() matches Some(items) && items.contains(JsonView::Text(expected))
}

/// The member `key` is an array that holds the text `expected`.
pub open spec fn lists(value: JsonView, key: Seq<char>, expected: Seq<char>) -> bool {
    value.get(key) matches Some(list) && holds_text(list, expected)
}

/// The five texts, if each of them is there.
pub open spec fn metadata_of_texts(
    issuer: Option<Seq<char>>,
    authorization: Option<Seq<char>>,
    token: Option<Seq<char>>,
    userinfo: Option<Seq<char>>,
    revocation: Option<Seq<char>>,
) -> Option<MetadataView> {
    match (issuer, authorization, token, userinfo, revocation) {
        (Some(issuer), Some(authorization), Some(token), Some(userinfo), Some(revocation)) => Some(
            MetadataView {
                issuer,
                authorization_endpoint: authorization,
                token_endpoint: token,
                userinfo_endpoint: userinfo,
                revocation_endpoint: revocation,
            },
        ),
        _ => None,
    }
}

/// The metadata that a document holds: an object with the five texts under their names, or an
/// array of just the five texts.
pub open spec fn metadata_fields(value: JsonView) -> Option<MetadataView> {
    match value {
        JsonView::Object(_) => metadata_of_texts(
            value.text_at("issuer"@),
            value.text_at("authorization_endpoint"@),
            value.text_at("token_endpoint"@),
            value.text_at("userinfo_endpoint"@),
            value.text_at("revocation_endpoint"@),
        ),
        JsonView::Array(items) => if items.len() == 5 {
            metadata_of_texts(
                items[0].text(),
                items[1].text(),
                items[2].text(),
                items[3].text(),
                items[4].text(),
            )
        } else {
            None
        },
        _ => None,
    }
}

/// Every endpoint is pinned.
pub open spec fn endpoints_pinned(metadata: MetadataView) -> bool {
    &&& pinned_text(metadata.authorization_endpoint)
    &&& pinned_text(metadata.token_endpoint)
    &&& pinned_text(metadata.userinfo_endpoint)
    &&& pinned_text(metadata.revocation_endpoint)
}

/// The document offers what a public client with a proof key needs.
pub open spec fn capabilities(value: JsonView) -> bool {
    &&& lists(value, "scopes_supported"@, "api:access"@)
    &&& lists(value, "scopes_supported"@, "profile:read"@)
    &&& lists(value, "response_types_supported"@, "code"@)
    &&& lists(value, "grant_types_supported"@, "authorization_code"@)
    &&& lists(value, "grant_types_supported"@, "refresh_token"@)
    &&& lists(value, "code_challenge_methods_supported"@, "S256"@)
    &&& lists(value, "token_endpoint_auth_methods_supported"@, "none"@)
}

/// What becomes of a document, given whether its endpoints are pinned.
pub open spec fn metadata_outcome(value: JsonView, pinned: bool) -> Result<
    MetadataView,
    AiPassError,
> {
    match metadata_fields(value) {
        None => Err(AiPassError::MetadataInvalid),
        Some(metadata) => if metadata.issuer == EXPECTED_ISSUER@ && pinned && capabilities(value) {
            Ok(metadata)
        } else {
            Err(AiPassError::MetadataRejected)
        },
    }
}

/// What becomes of a document.
pub open spec fn validated(value: JsonView) -> Result<MetadataView, AiPassError> {
    metadata_outcome(
        value,
        metadata_fields(value) matches Some(metadata) && endpoints_pinned(metadata),
    )
}

/// Whether the value is an array that holds the text `expected`.
pub fn array_contains(value: &Json, expected: &str) -> (r: bool)
    ensures
        r == holds_text(value@, expected@),
{
    match value.as_array() {
        None => false,
        Some(items) => {
            let ghost views = item_views(items@);
            let mut i: usize = 0;
            while i < items.len()
                invariant
                    i <= items.len(),
                    views == item_views(items@),
                    value@.items() == Some(views),
                    forall|j: int| 0 <= j < i ==> #[trigger] views[j] != JsonView::Text(expected@),
                decreases items.len() - i,
            {
                assert(views[i as int] == items@[i as int]@);
                match items[i].as_str() {
                    Some(text) => {
                        if str_eq(text, expected) {
                            assert(views.contains(JsonView::Text(expected@)));
                            return true;
                        }
                    },
                    None => {},
                }
                i = i + 1;
            }
            false
        },
    }
}

fn member_lists(value: &Json, key: &str, expected: &str) -> (r: bool)
    ensures
        r == lists(value@, key@, expected@),
{
    match value.get(key) {
        Some(list) => array_contains(list, expected),
        None => false,
    }
}

/// The metadata that a document holds, whether or not it is to be trusted.
pub fn read_metadata(value: &Json) -> (r: Option<OAuthMetadata>)
    ensures
        r is Some <==> metadata_fields(value@) is Some,
        r matches Some(metadata) ==> metadata@ == metadata_fields(value@)->0,
{
    broadcast use view_of_parts;

    let (issuer, authorization, token, userinfo, revocation) = match value {
        Json::Object(_) => (
            value.str_at("issuer"),
            value.str_at("authorization_endpoint"),
            value.str_at("token_endpoint"),
            value.str_at("userinfo_endpoint"),
            value.str_at("revocation_endpoint"),
        ),
        Json::Array(items) => {
            if items.len() != 5 {
                return None;
            }
            (
                items[0].as_str(),
                items[1].as_str(),
                items[2].as_str(),
                items[3].as_str(),
                items[4].as_str(),
            )
        },
        _ => {
            return None;
        },
    };
    match (issuer, authorization, token, userinfo, revocation) {
        (Some(issuer), Some(authorization), Some(token), Some(userinfo), Some(revocation)) => Some(
            OAuthMetadata {
                issuer: issuer.to_owned(),
                authorization_endpoint: authorization.to_owned(),
                token_endpoint: token.to_owned(),
                userinfo_endpoint: userinfo.to_owned(),
                revocation_endpoint: revocation.to_owned(),
            },
        ),
        _ => None,
    }
}

/// Judges the metadata of a document, given whether its endpoints are pinned.
pub fn judge_metadata(value: &Json, metadata: Option<OAuthMetadata>, pinned: bool) -> (r: Result<
    OAuthMetadata,
    AiPassError,
>)
    requires
        metadata is Some <==> metadata_fields(value@) is Some,
        metadata matches Some(metadata) ==> metadata@ == metadata_fields(value@)->0,
    ensures
        viewed(r) == metadata_outcome(value@, pinned),
{
    match metadata {
        None => Err(AiPassError::MetadataInvalid),
        Some(metadata) => {
            if str_eq(metadata.issuer.as_str(), EXPECTED_ISSUER) && pinned && member_lists(
                value,
                "scopes_supported",
                "api:access",
            ) && member_lists(value, "scopes_supported", "profile:read") && member_lists(
                value,
                "response_types_supported",
                "code",
            ) && member_lists(value, "grant_types_supported", "authorization_code")
                && member_lists(value, "grant_types_supported", "refresh_token") && member_lists(
                value,
                "code_challenge_methods_supported",
                "S256",
            ) && member_lists(value, "token_endpoint_auth_methods_supported", "none") {
                Ok(metadata)
            } else {
                Err(AiPassError::MetadataRejected)
            }
        },
    }
}

/// The metadata of a document, if it is complete and can be trusted.
pub fn validate_metadata(value: &Json) -> (r: Result<OAuthMetadata, AiPassError>)
    ensures
        viewed(r) == validated(value@),
{
    let metadata = read_metadata(value);
    let pinned = match &metadata {
        Some(metadata) => endpoint_is_pinned_https(metadata.authorization_endpoint.as_str())
            && endpoint_is_pinned_https(metadata.token_endpoint.as_str())
            && endpoint_is_pinned_https(metadata.userinfo_endpoint.as_str())
            && endpoint_is_pinned_https(metadata.revocation_endpoint.as_str()),
        None => false,
    };
    judge_metadata(value, metadata, pinned)
}

/// What becomes of the body of a metadata reply.
pub open spec fn metadata_of_body(body: Seq<u8>) -> Result<MetadataView, AiPassError> {
    match json_document(body) {
        Some(value) => validated(value),
        None => Err(AiPassError::MetadataInvalid),
    }
}

/// The metadata in the body of a reply.
pub fn parse_metadata(body: &[u8]) -> (r: Result<OAuthMetadata, AiPassError>)
    ensures
        viewed(r) == metadata_of_body(body@),
{
    match parse_json(body) {
        Ok(value) => validate_metadata(&value),
        Err(_) => Err(AiPassError::MetadataInvalid),
    }
}

/// The metadata in a reply, if the request was granted.
pub fn metadata_reply(status: u16, body: &[u8]) -> (r: Result<OAuthMetadata, AiPassError>)
    ensures
        viewed(r) == (if success(status) {
            metadata_of_body(body@)
        } else {
            Err(AiPassError::MetadataUnavailable)
        }),
{
    if !is_success(status) {
        return Err(AiPassError::MetadataUnavailable);
    }
    parse_metadata(body)
}

/// Metadata that is accepted names the expected issuer, and every endpoint of it lies on the
/// service's own host over `https`.
pub proof fn accepted_metadata_is_pinned(value: JsonView)
    ensures
        validated(value) matches Ok(metadata) ==> metadata.issuer == EXPECTED_ISSUER@
            && endpoints_pinned(metadata) && capabilities(value),
{
}

/// The text is an address on the service's own host, over `https`, with nothing but a path.
pub open spec fn on_the_service_host(text: Seq<char>) -> bool {
    &&& url_of(text) matches Some(url)
    &&& url.scheme == "https"@
    &&& url.host == Some("aipass.one"@)
    &&& url.port is None
    &&& url.username == Seq::<char>::empty()
    &&& url.password is None
    &&& url.query is None
    &&& url.fragment is None
}

/// The member is an array in which the word stands, wherever.
pub open spec fn offers(value: JsonView, key: Seq<char>, word: Seq<char>) -> bool {
    value.get(key) matches Some(JsonView::Array(items)) && exists|i: int|
        0 <= i < items.len() && #[trigger] items[i] == JsonView::Text(word)
}

proof fn offering_is_listing(value: JsonView, key: Seq<char>, word: Seq<char>)
    ensures
        lists(value, key, word) <==> offers(value, key, word),
{
    values_are_taken_for_what_they_are(value, key);
    if let Some(list) = value.get(key) {
        values_are_taken_for_what_they_are(list, key);
        if let JsonView::Array(items) = list {
            if items.contains(JsonView::Text(word)) {
                let i = choose|i: int| 0 <= i < items.len() && items[i] == JsonView::Text(word);
                assert(items[i] == JsonView::Text(word));
            }
        }
    }
}

proof fn host_is_pinned(text: Seq<char>)
    ensures
        pinned_text(text) <==> on_the_service_host(text),
{
    if let Some(url) = url_of(text) {
        every_path_on_the_host_is_pinned(url);
    }
}

/// The document offers all that is needed.
pub open spec fn offers_all(value: JsonView) -> bool {
    &&& offers(value, "scopes_supported"@, "api:access"@)
    &&& offers(value, "scopes_supported"@, "profile:read"@)
    &&& offers(value, "response_types_supported"@, "code"@)
    &&& offers(value, "grant_types_supported"@, "authorization_code"@)
    &&& offers(value, "grant_types_supported"@, "refresh_token"@)
    &&& offers(value, "code_challenge_methods_supported"@, "S256"@)
    &&& offers(value, "token_endpoint_auth_methods_supported"@, "none"@)
}

/// The document has the five texts of the endpoints.
pub open spec fn has_endpoints(value: JsonView, metadata: MetadataView) -> bool {
    &&& value.get("issuer"@) == Some(JsonView::Text(metadata.issuer))
    &&& value.get("authorization_endpoint"@) == Some(
        JsonView::Text(metadata.authorization_endpoint),
    )
    &&& value.get("token_endpoint"@) == Some(JsonView::Text(metadata.token_endpoint))
    &&& value.get("userinfo_endpoint"@) == Some(JsonView::Text(metadata.userinfo_endpoint))
    &&& value.get("revocation_endpoint"@) == Some(JsonView::Text(metadata.revocation_endpoint))
}

/// Every endpoint lies on the service's own host, and the issuer is the expected one.
pub open spec fn trusted(metadata: MetadataView) -> bool {
    &&& metadata.issuer == "https://aipass.one"@
    &&& on_the_service_host(metadata.authorization_endpoint)
    &&& on_the_service_host(metadata.token_endpoint)
    &&& on_the_service_host(metadata.userinfo_endpoint)
    &&& on_the_service_host(metadata.revocation_endpoint)
}

/// Metadata with trusted endpoints that offers all that is needed is accepted, with exactly these
/// endpoints, whatever else it holds; other metadata with five endpoints is rejected.
pub proof fn trusted_metadata_is_accepted(value: JsonView, metadata: MetadataView)
    requires
        has_endpoints(value, metadata),
    ensures
        trusted(metadata) && offers_all(value) ==> validated(value) == Ok::<
            MetadataView,
            AiPassError,
        >(metadata),
        !(trusted(metadata) && offers_all(value)) ==> validated(value) == Err::<
            MetadataView,
            AiPassError,
        >(AiPassError::MetadataRejected),
{
    values_are_taken_for_what_they_are(value, "issuer"@);
    values_are_taken_for_what_they_are(value, "authorization_endpoint"@);
    values_are_taken_for_what_they_are(value, "token_endpoint"@);
    values_are_taken_for_what_they_are(value, "userinfo_endpoint"@);
    values_are_taken_for_what_they_are(value, "revocation_endpoint"@);
    assert(value.text_at("issuer"@) == Some(metadata.issuer));
    assert(value.text_at("authorization_endpoint"@) == Some(metadata.authorization_endpoint));
    assert(value.text_at("token_endpoint"@) == Some(metadata.token_endpoint));
    assert(value.text_at("userinfo_endpoint"@) == Some(metadata.userinfo_endpoint));
    assert(value.text_at("revocation_endpoint"@) == Some(metadata.revocation_endpoint));
    assert(metadata_fields(value) == Some(metadata));
    host_is_pinned(metadata.authorization_endpoint);
    host_is_pinned(metadata.token_endpoint);
    host_is_pinned(metadata.userinfo_endpoint);
    host_is_pinned(metadata.revocation_endpoint);
    offering_is_listing(value, "scopes_supported"@, "api:access"@);
    offering_is_listing(value, "scopes_supported"@, "profile:read"@);
    offering_is_listing(value, "response_types_supported"@, "code"@);
    offering_is_listing(value, "grant_types_supported"@, "authorization_code"@);
    offering_is_listing(value, "grant_types_supported"@, "refresh_token"@);
    offering_is_listing(value, "code_challenge_methods_supported"@, "S256"@);
    offering_is_listing(value, "token_endpoint_auth_methods_supported"@, "none"@);
}

/// Metadata is never accepted without the five texts of its endpoints, and an object that lacks one
/// of them is invalid.
pub proof fn incomplete_metadata_is_invalid(value: JsonView)
    ensures
        validated(value) matches Ok(metadata) ==> has_endpoints(value, metadata) && trusted(metadata)
            && offers_all(value),
        value is Object && (forall|metadata: MetadataView| !has_endpoints(value, metadata))
            ==> validated(value) == Err::<MetadataView, AiPassError>(AiPassError::MetadataInvalid),
        !(value is Object) && !(value is Array) ==> validated(value) == Err::<
            MetadataView,
            AiPassError,
        >(AiPassError::MetadataInvalid),
{
    values_are_taken_for_what_they_are(value, "issuer"@);
    values_are_taken_for_what_they_are(value, "authorization_endpoint"@);
    values_are_taken_for_what_they_are(value, "token_endpoint"@);
    values_are_taken_for_what_they_are(value, "userinfo_endpoint"@);
    values_are_taken_for_what_they_are(value, "revocation_endpoint"@);
    values_are_taken_for_what_they_are(value, "scopes_supported"@);
    if let Some(metadata) = metadata_fields(value) {
        if value is Object {
            assert(value.text_at("issuer"@) == Some(metadata.issuer));
            assert(value.text_at("authorization_endpoint"@) == Some(
                metadata.authorization_endpoint,
            ));
            assert(value.text_at("token_endpoint"@) == Some(metadata.token_endpoint));
            assert(value.text_at("userinfo_endpoint"@) == Some(metadata.userinfo_endpoint));
            assert(value.text_at("revocation_endpoint"@) == Some(metadata.revocation_endpoint));
            assert(has_endpoints(value, metadata));
            trusted_metadata_is_accepted(value, metadata);
        } else {
            assert(!lists(value, "scopes_supported"@, "api:access"@));
        }
    }
}

/// The body of a reply with metadata is judged by its document; a body that holds none is refused.
pub proof fn metadata_body_is_judged_by_its_document(body: Seq<u8>)
    ensures
        json_document(body) matches Some(value) ==> metadata_of_body(body) == validated(value),
        json_document(body) is None ==> metadata_of_body(body) == Err::<MetadataView, AiPassError>(
            AiPassError::MetadataInvalid,
        ),
{
}

/// The view of metadata shows all of it.
pub proof fn view_of_metadata_shows_all(metadata: OAuthMetadata)
    ensures
        metadata@.issuer == metadata.issuer@,
        metadata@.authorization_endpoint == metadata.authorization_endpoint@,
        metadata@.token_endpoint == metadata.token_endpoint@,
        metadata@.userinfo_endpoint == metadata.userinfo_endpoint@,
        metadata@.revocation_endpoint == metadata.revocation_endpoint@,
{
}

} // verus!
