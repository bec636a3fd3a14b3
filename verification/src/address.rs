//! Addresses: their parts, the endpoints that are trusted, and the page that asks the user for
//! authorization.
use crate::error::AiPassError;
use crate::form::{encode_form, form_pairs, form_read, form_reads_back, pair, pair_texts};
use crate::limits::REQUIRED_SCOPE;
use crate::text::{decimal, optional_text, str_eq, to_decimal};
use vstd::prelude::*;
use vstd::string::*;

verus! {

/// The parts of a URL.
pub struct UrlParts {
    /// The URL as it is written after parsing.
    pub href: String,
    pub scheme: String,
    pub host: Option<String>,
    /// The port, where it is not the scheme's own.
    pub port: Option<u16>,
    pub username: String,
    pub password: Option<String>,
    pub path: String,
    pub query: Option<String>,
    /// The names and values of the query, decoded, in order.
    pub pairs: Vec<(String, String)>,
    pub fragment: Option<String>,
}

/// The parts of a URL as mathematics.
pub struct UrlView {
    pub href: Seq<char>,
    pub scheme: Seq<char>,
    pub host: Option<Seq<char>>,
    pub port: Option<u16>,
    pub username: Seq<char>,
    pub password: Option<Seq<char>>,
    pub path: Seq<char>,
    pub query: Option<Seq<char>>,
    pub pairs: Seq<(Seq<char>, Seq<char>)>,
    pub fragment: Option<Seq<char>>,
}

impl View for UrlParts {
    type V = UrlView;

    open spec fn view(&self) -> UrlView {
        UrlView {
            href: self.href@,
            scheme: self.scheme@,
            host: optional_text(self.host),
            port: self.port,
            username: self.username@,
            password: optional_text(self.password),
            path: self.path@,
            query: optional_text(self.query),
            pairs: pair_texts(self.pairs@),
            fragment: optional_text(self.fragment),
        }
    }
}

#[verifier::external_type_specification]
#[verifier::external_body]
pub struct ExUrlError(url::ParseError);

/// The parts of the URL that `url` reads from the text, if it accepts it.
pub uninterp spec fn url_of(text: Seq<char>) -> Option<UrlView>;

/// Wraps `url::Url::parse` and takes the parsed URL apart by its accessors. Claimed: whether the
/// text is accepted, and the parts, are a function of the text alone.
#[verifier::external_body]
fn parse_url(text: &str) -> (r: Result<UrlParts, url::ParseError>)
    ensures
        r is Ok <==> url_of(text@) is Some,
        r matches Ok(parts) ==> parts@ == url_of(text@)->0,
{
    url::Url::parse(text).map(|url| UrlParts {
        href: url.as_str().to_owned(),
        scheme: url.scheme().to_owned(),
        host: url.host_str().map(str::to_owned),
        port: url.port(),
        username: url.username().to_owned(),
        password: url.password().map(str::to_owned),
        path: url.path().to_owned(),
        query: url.query().map(str::to_owned),
        pairs: url.query_pairs().into_owned().collect(),
        fragment: url.fragment().map(str::to_owned),
    })
}

/// The parts of the URL that `text` is, if it is one.
pub fn read_url(text: &str) -> (r: Option<UrlParts>)
    ensures
        r is Some <==> url_of(text@) is Some,
        r matches Some(parts) ==> parts@ == url_of(text@)->0,
{
    match parse_url(text) {
        Ok(parts) => Some(parts),
        Err(_) => None,
    }
}

/// The URL lies on the service's own host and holds nothing but a path: `https`, the host itself,
/// its usual port, no credentials, no query and no fragment.
pub open spec fn pinned(url: UrlView) -> bool {
    &&& url.scheme == "https"@
    &&& url.host == Some("aipass.one"@)
    &&& url.port is None
    &&& url.username.len() == 0
    &&& url.password is None
    &&& url.query is None
    &&& url.fragment is None
}

/// The text is a URL, and that URL is pinned.
pub open spec fn pinned_text(text: Seq<char>) -> bool {
    url_of(text) matches Some(url) && pinned(url)
}

/// Whether the parts are those of a pinned URL.
pub fn is_pinned(url: &UrlParts) -> (r: bool)
    ensures
        r == pinned(url@),
{
    let host_is_pinned = match &url.host {
        Some(host) => str_eq(host.as_str(), "aipass.one"),
        None => false,
    };
    str_eq(url.scheme.as_str(), "https") && host_is_pinned && url.port.is_none()
        && url.username.as_str().is_empty() && url.password.is_none() && url.query.is_none()
        && url.fragment.is_none()
}

/// Whether `value` is a pinned URL.
pub fn endpoint_is_pinned_https(value: &str) -> (r: bool)
    ensures
        r == pinned_text(value@),
{
    match read_url(value) {
        Some(url) => is_pinned(&url),
        None => false,
    }
}

/// The parameters of the authorization page: a public client that asks for a code, bound to this
/// attempt by its state and by the S256 challenge of its proof key.
pub open spec fn authorization_pairs(
    client_id: Seq<char>,
    redirect_uri: Seq<char>,
    code_challenge: Seq<char>,
    state: Seq<char>,
) -> Seq<(Seq<char>, Seq<char>)> {
    seq![
        ("client_id"@, client_id),
        ("response_type"@, "code"@),
        ("redirect_uri"@, redirect_uri),
        ("scope"@, REQUIRED_SCOPE@),
        ("state"@, state),
        ("code_challenge"@, code_challenge),
        ("code_challenge_method"@, "S256"@),
    ]
}

/// The address of the authorization page at the endpoint `href`.
pub open spec fn authorization_url(
    href: Seq<char>,
    client_id: Seq<char>,
    redirect_uri: Seq<char>,
    code_challenge: Seq<char>,
    state: Seq<char>,
) -> Seq<char> {
    href + seq!['?'] + form_pairs(
        authorization_pairs(client_id, redirect_uri, code_challenge, state),
    )
}

/// The text is the address `href` with a query that reads back to exactly these pairs, in order.
pub open spec fn asks_at(
    url: Seq<char>,
    href: Seq<char>,
    pairs: Seq<(Seq<char>, Seq<char>)>,
) -> bool {
    &&& url.len() > href.len()
    &&& url.take(href.len() as int) == href
    &&& url[href.len() as int] == '?'
    &&& form_read(url.skip(href.len() as int + 1)) == pairs
}

/// The address of the authorization page is the endpoint and a query, and whoever reads the query
/// finds the parameters that were meant, whatever characters they hold.
pub proof fn authorization_url_reads_back(
    href: Seq<char>,
    client_id: Seq<char>,
    redirect_uri: Seq<char>,
    code_challenge: Seq<char>,
    state: Seq<char>,
)
    ensures
        asks_at(
            authorization_url(href, client_id, redirect_uri, code_challenge, state),
            href,
            authorization_pairs(client_id, redirect_uri, code_challenge, state),
        ),
{
    let pairs = authorization_pairs(client_id, redirect_uri, code_challenge, state);
    let url = authorization_url(href, client_id, redirect_uri, code_challenge, state);
    form_reads_back(pairs);
    assert(url.take(href.len() as int) =~= href);
    assert(url.skip(href.len() as int + 1) =~= form_pairs(pairs));
}

/// The authorization page is asked for as a public client asks: for a code, with an S256 challenge
/// and a state, and without a client secret.
pub proof fn authorization_is_public_and_bound(
    client_id: Seq<char>,
    redirect_uri: Seq<char>,
    code_challenge: Seq<char>,
    state: Seq<char>,
)
    ensures
        ({
            let pairs = authorization_pairs(client_id, redirect_uri, code_challenge, state);
            &&& pairs.contains(("response_type"@, "code"@))
            &&& pairs.contains(("code_challenge"@, code_challenge))
            &&& pairs.contains(("code_challenge_method"@, "S256"@))
            &&& pairs.contains(("state"@, state))
            &&& forall|i: int| 0 <= i < pairs.len() ==> (#[trigger] pairs[i]).0 != "client_secret"@
        }),
{
    let pairs = authorization_pairs(client_id, redirect_uri, code_challenge, state);
    assert(pairs[1] == ("response_type"@, "code"@));
    assert(pairs[5] == ("code_challenge"@, code_challenge));
    assert(pairs[6] == ("code_challenge_method"@, "S256"@));
    assert(pairs[4] == ("state"@, state));
    reveal_strlit("client_secret");
    reveal_strlit("client_id");
    reveal_strlit("response_type");
    reveal_strlit("redirect_uri");
    reveal_strlit("scope");
    reveal_strlit("state");
    reveal_strlit("code_challenge");
    reveal_strlit("code_challenge_method");
    assert("client_secret"@.len() == 13 && "client_secret"@[0] == 'c');
    assert("response_type"@[0] == 'r');
}

/// The address of the authorization page of an endpoint that has been read and found pinned.
pub fn authorization_url_at(
    endpoint: &UrlParts,
    client_id: &str,
    redirect_uri: &str,
    code_challenge: &str,
    state: &str,
) -> (r: String)
    ensures
        r@ == authorization_url(endpoint@.href, client_id@, redirect_uri@, code_challenge@, state@),
        asks_at(
            r@,
            endpoint@.href,
            authorization_pairs(client_id@, redirect_uri@, code_challenge@, state@),
        ),
{
    proof {
        authorization_url_reads_back(
            endpoint@.href,
            client_id@,
            redirect_uri@,
            code_challenge@,
            state@,
        );
    }
    let mut pairs: Vec<(String, String)> = Vec::new();
    pairs.push(pair("client_id", client_id));
    pairs.push(pair("response_type", "code"));
    pairs.push(pair("redirect_uri", redirect_uri));
    pairs.push(pair("scope", REQUIRED_SCOPE));
    pairs.push(pair("state", state));
    pairs.push(pair("code_challenge", code_challenge));
    pairs.push(pair("code_challenge_method", "S256"));
    assert(pair_texts(pairs@) == authorization_pairs(
        client_id@,
        redirect_uri@,
        code_challenge@,
        state@,
    ));
    let mut url = endpoint.href.clone();
    url.push('?');
    assert(url@ == endpoint@.href + seq!['?']);
    url.append(encode_form(&pairs).as_str());
    url
}

/// The address of the authorization page of `endpoint`, which must be pinned.
pub fn build_authorization_url(
    endpoint: &str,
    client_id: &str,
    redirect_uri: &str,
    code_challenge: &str,
    state: &str,
) -> (r: Result<String, AiPassError>)
    ensures
        r is Ok <==> pinned_text(endpoint@),
        r matches Ok(url) ==> url@ == authorization_url(
            url_of(endpoint@)->0.href,
            client_id@,
            redirect_uri@,
            code_challenge@,
            state@,
        ),
        r matches Ok(url) ==> asks_at(
            url@,
            url_of(endpoint@)->0.href,
            authorization_pairs(client_id@, redirect_uri@, code_challenge@, state@),
        ),
        r matches Err(error) ==> error == AiPassError::AuthorizationEndpointInvalid,
{
    match read_url(endpoint) {
        Some(url) => {
            if is_pinned(&url) {
                Ok(authorization_url_at(&url, client_id, redirect_uri, code_challenge, state))
            } else {
                Err(AiPassError::AuthorizationEndpointInvalid)
            }
        },
        None => Err(AiPassError::AuthorizationEndpointInvalid),
    }
}

/// Where the browser is sent back to: the path `/oauth/callback` on this machine's `port`.
pub open spec fn loopback_uri(port: u16) -> Seq<char> {
    "http://127.0.0.1:"@ + decimal(port as nat) + "/oauth/callback"@
}

/// Where the browser is sent back to when the listener has `port`.
pub fn redirect_uri(port: u16) -> (r: String)
    ensures
        r@ == loopback_uri(port),
{
    let mut uri = "http://127.0.0.1:".to_owned();
    uri.append(to_decimal(port as u64).as_str());
    uri.append("/oauth/callback");
    uri
}

/// Every address on the service's own host is pinned, whatever its path, if it is reached over
/// `https` at the usual port and has no credentials, no query and no fragment; and no other one is.
pub proof fn every_path_on_the_host_is_pinned(url: UrlView)
    ensures
        pinned(url) <==> url.scheme == "https"@ && url.host == Some("aipass.one"@) && url.port
            is None && url.username == Seq::<char>::empty() && url.password is None && url.query
            is None && url.fragment is None,
        url_of(url.href) == Some(url) ==> pinned_text(url.href) == pinned(url),
{
    assert(url.username.len() == 0 <==> url.username =~= Seq::<char>::empty());
}

/// The authorization page is asked for with these seven parameters, in this order, and with the
/// two permissions that the client needs.
pub proof fn authorization_has_seven_parameters(
    client_id: Seq<char>,
    redirect_uri: Seq<char>,
    code_challenge: Seq<char>,
    state: Seq<char>,
)
    ensures
        ({
            let pairs = authorization_pairs(client_id, redirect_uri, code_challenge, state);
            &&& pairs.len() == 7
            &&& pairs[0] == ("client_id"@, client_id)
            &&& pairs[1] == ("response_type"@, "code"@)
            &&& pairs[2] == ("redirect_uri"@, redirect_uri)
            &&& pairs[3] == ("scope"@, "api:access profile:read"@)
            &&& pairs[4] == ("state"@, state)
            &&& pairs[5] == ("code_challenge"@, code_challenge)
            &&& pairs[6] == ("code_challenge_method"@, "S256"@)
        }),
{
}

/// The browser is sent back to this machine, at the port of the listener, whichever it is.
pub proof fn redirect_names_the_port(port: u16)
    ensures
        loopback_uri(port) == "http://127.0.0.1:"@ + decimal(port as nat) + "/oauth/callback"@,
{
}

/// The view of the parts of a URL shows all of them.
pub proof fn view_of_url_shows_all(url: UrlParts)
    ensures
        url@.href == url.href@,
        url@.scheme == url.scheme@,
        url@.host == optional_text(url.host),
        url@.port == url.port,
        url@.username == url.username@,
        url@.password == optional_text(url.password),
        url@.path == url.path@,
        url@.query == optional_text(url.query),
        url@.pairs == pair_texts(url.pairs@),
        url@.fragment == optional_text(url.fragment),
{
}

} // verus!
