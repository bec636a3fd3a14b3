//! Connecting, from the look for an earlier connection to tokens that are saved.
//!
//! A task says what is to be done next; `aipass_connect` takes a task and what came of it to the
//! next task. Whoever does the work holds no rules of its own.
use crate::address::{
    authorization_url, build_authorization_url, loopback_uri, pinned_text, redirect_uri, url_of,
};
use crate::callback::Callback;
use crate::encoding::{base64_url, url_safe};
use crate::error::AiPassError;
use crate::metadata::OAuthMetadata;
use crate::profile::{ConnectionStatus, Profile};
use crate::secrets::{challenge_of, code_challenge, random_urlsafe, system_drew, wipe_text};
use crate::tokens::TokenBundle;
use vstd::prelude::*;

verus! {

/// An authorization that the user is asked for.
pub struct Attempt {
    /// Where the browser is sent back to.
    pub redirect_uri: String,
    /// The proof key, which only the holder of this attempt knows.
    pub verifier: String,
    /// What the browser's return is recognised by.
    pub state: String,
    /// The page to open.
    pub url: String,
}

/// The attempt that belongs to these values.
pub open spec fn attempt_is(
    attempt: Attempt,
    endpoint: Seq<char>,
    client_id: Seq<char>,
    port: u16,
) -> bool {
    &&& attempt.redirect_uri@ == loopback_uri(port)
    &&& attempt.url@ == authorization_url(
        url_of(endpoint)->0.href,
        client_id,
        loopback_uri(port),
        challenge_of(attempt.verifier@),
        attempt.state@,
    )
}

/// Prepares an authorization with a given proof key and state.
pub fn prepare_attempt_with(
    endpoint: &str,
    client_id: &str,
    port: u16,
    verifier: String,
    state: String,
) -> (r: Result<Attempt, AiPassError>)
    ensures
        r is Ok <==> pinned_text(endpoint@),
        r matches Ok(attempt) ==> attempt.verifier == verifier && attempt.state == state
            && attempt_is(attempt, endpoint@, client_id@, port),
        r matches Err(error) ==> error == AiPassError::AuthorizationEndpointInvalid,
{
    let redirect_uri = redirect_uri(port);
    let challenge = code_challenge(verifier.as_str());
    match build_authorization_url(
        endpoint,
        client_id,
        redirect_uri.as_str(),
        challenge.as_str(),
        state.as_str(),
    ) {
        Ok(url) => Ok(Attempt { redirect_uri, verifier, state, url }),
        Err(error) => Err(error),
    }
}

/// Prepares an authorization with a fresh proof key and state, which hold 64 and 32 random bytes.
pub fn prepare_attempt(endpoint: &str, client_id: &str, port: u16) -> (r: Result<
    Attempt,
    AiPassError,
>)
    ensures
        r is Ok <==> pinned_text(endpoint@),
        r matches Ok(attempt) ==> {
            &&& attempt_is(attempt, endpoint@, client_id@, port)
            &&& attempt.verifier@.len() == 86
            &&& attempt.state@.len() == 43
            &&& forall|i: int| 0 <= i < 86 ==> url_safe(#[trigger] attempt.verifier@[i])
            &&& forall|i: int| 0 <= i < 43 ==> url_safe(#[trigger] attempt.state@[i])
            &&& exists|drawn: Seq<u8>|
                drawn.len() == 64 && attempt.verifier@ == #[trigger] base64_url(drawn)
            &&& exists|drawn: Seq<u8>|
                drawn.len() == 32 && attempt.state@ == #[trigger] base64_url(drawn)
            &&& exists|drawn: Vec<u8>| #[trigger]
                system_drew(64, drawn) && drawn@.len() == 64 && attempt.verifier@ == base64_url(
                    drawn@,
                )
            &&& exists|drawn: Vec<u8>| #[trigger]
                system_drew(32, drawn) && drawn@.len() == 32 && attempt.state@ == base64_url(
                    drawn@,
                )
        },
        r matches Err(error) ==> error == AiPassError::AuthorizationEndpointInvalid,
{
    let verifier = random_urlsafe(64);
    let state = random_urlsafe(32);
    prepare_attempt_with(endpoint, client_id, port, verifier, state)
}

/// What an authorization is carried through with.
pub struct ConnectContext {
    pub client_id: String,
    pub metadata: OAuthMetadata,
    pub attempt: Attempt,
}

impl ConnectContext {
    /// Wipes the proof key and the state.
    fn wipe(&mut self)
        ensures
            final(self).attempt.verifier@ == Seq::<char>::empty(),
            final(self).attempt.state@ == Seq::<char>::empty(),
    {
        wipe_text(&mut self.attempt.verifier);
        wipe_text(&mut self.attempt.state);
    }
}

/// What is to be done next to connect.
pub enum ConnectTask {
    /// Look for an earlier connection.
    Load,
    /// Fetch the metadata of the service.
    Discover { client_id: String },
    /// Listen for the browser and prepare the authorization.
    Listen { client_id: String, metadata: OAuthMetadata },
    /// Open the page.
    Open(ConnectContext),
    /// Wait for the browser's return.
    Wait(ConnectContext),
    /// Turn the code into tokens.
    Exchange { context: ConnectContext, code: String },
    /// Fetch the profile with the access token.
    FetchProfile { context: ConnectContext, tokens: TokenBundle },
    /// Save the tokens.
    Save { context: ConnectContext, tokens: TokenBundle },
    /// Give the refresh token back.
    RevokeRefresh { context: ConnectContext, tokens: TokenBundle, error: AiPassError },
    /// Give the access token back.
    RevokeAccess { context: ConnectContext, tokens: TokenBundle, error: AiPassError },
    /// Nothing: the connection stands.
    Connected(ConnectionStatus),
    /// Nothing: there is no connection.
    Failed(AiPassError),
}

/// What came of a task of connecting.
pub enum ConnectEvent {
    /// Whether there is an earlier connection; and the client of this build.
    Loaded { stored: Result<bool, AiPassError>, client_id: Option<String> },
    Discovered(Result<OAuthMetadata, AiPassError>),
    Prepared(Result<Attempt, AiPassError>),
    /// Whether the page could be opened.
    Opened(bool),
    Returned(Result<Callback, AiPassError>),
    Exchanged(Result<TokenBundle, AiPassError>),
    Profiled(Result<Profile, AiPassError>),
    Saved(Result<(), AiPassError>),
    Revoked,
}

/// The status of a connection with these tokens.
pub open spec fn connected_status(tokens: TokenBundle) -> ConnectionStatus {
    ConnectionStatus {
        configured: true,
        connected: true,
        display_name: tokens.profile.display_name,
        email: tokens.profile.email,
    }
}

/// The task that follows. An event that does not belong to the task leaves it as it is.
pub open spec fn connect_next(task: ConnectTask, event: ConnectEvent) -> ConnectTask {
    match (task, event) {
        (ConnectTask::Load, ConnectEvent::Loaded { stored, client_id }) => match stored {
            Err(error) => ConnectTask::Failed(error),
            Ok(true) => ConnectTask::Failed(AiPassError::AlreadyConnected),
            Ok(false) => match client_id {
                None => ConnectTask::Failed(AiPassError::NotConfigured),
                Some(client_id) => ConnectTask::Discover { client_id },
            },
        },
        (ConnectTask::Discover { client_id }, ConnectEvent::Discovered(r)) => match r {
            Err(error) => ConnectTask::Failed(error),
            Ok(metadata) => ConnectTask::Listen { client_id, metadata },
        },
        (ConnectTask::Listen { client_id, metadata }, ConnectEvent::Prepared(r)) => match r {
            Err(error) => ConnectTask::Failed(error),
            Ok(attempt) => ConnectTask::Open(ConnectContext { client_id, metadata, attempt }),
        },
        (ConnectTask::Open(context), ConnectEvent::Opened(opened)) => if opened {
            ConnectTask::Wait(context)
        } else {
            ConnectTask::Failed(AiPassError::AuthorizationPageNotOpened)
        },
        (ConnectTask::Wait(context), ConnectEvent::Returned(r)) => match r {
            Err(error) => ConnectTask::Failed(error),
            Ok(Callback::Error(_)) => ConnectTask::Failed(AiPassError::AuthorizationNotApproved),
            Ok(Callback::Code(code)) => ConnectTask::Exchange { context, code },
        },
        (ConnectTask::Exchange { context, .. }, ConnectEvent::Exchanged(r)) => match r {
            Err(error) => ConnectTask::Failed(error),
            Ok(tokens) => ConnectTask::FetchProfile { context, tokens },
        },
        (ConnectTask::FetchProfile { context, tokens }, ConnectEvent::Profiled(r)) => match r {
            Err(error) => ConnectTask::RevokeRefresh { context, tokens, error },
            Ok(profile) => ConnectTask::Save {
                context,
                tokens: TokenBundle { profile, ..tokens },
            },
        },
        (ConnectTask::Save { context, tokens }, ConnectEvent::Saved(r)) => match r {
            Err(error) => ConnectTask::RevokeRefresh { context, tokens, error },
            Ok(_) => ConnectTask::Connected(connected_status(tokens)),
        },
        (
            ConnectTask::RevokeRefresh { context, tokens, error },
            ConnectEvent::Revoked,
        ) => ConnectTask::RevokeAccess { context, tokens, error },
        (ConnectTask::RevokeAccess { error, .. }, ConnectEvent::Revoked) => ConnectTask::Failed(
            error,
        ),
        _ => task,
    }
}

/// Takes what came of a task of connecting. Secrets are wiped when they have served.
pub fn aipass_connect(task: ConnectTask, event: ConnectEvent) -> (r: ConnectTask)
    ensures
        r == connect_next(task, event),
{
    match (task, event) {
        (ConnectTask::Load, ConnectEvent::Loaded { stored, client_id }) => match stored {
            Err(error) => ConnectTask::Failed(error),
            Ok(true) => ConnectTask::Failed(AiPassError::AlreadyConnected),
            Ok(false) => match client_id {
                None => ConnectTask::Failed(AiPassError::NotConfigured),
                Some(client_id) => ConnectTask::Discover { client_id },
            },
        },
        (ConnectTask::Discover { client_id }, ConnectEvent::Discovered(r)) => match r {
            Err(error) => ConnectTask::Failed(error),
            Ok(metadata) => ConnectTask::Listen { client_id, metadata },
        },
        (ConnectTask::Listen { client_id, metadata }, ConnectEvent::Prepared(r)) => match r {
            Err(error) => ConnectTask::Failed(error),
            Ok(attempt) => ConnectTask::Open(ConnectContext { client_id, metadata, attempt }),
        },
        (ConnectTask::Open(context), ConnectEvent::Opened(opened)) => {
            if opened {
                ConnectTask::Wait(context)
            } else {
                let mut context = context;
                context.wipe();
                ConnectTask::Failed(AiPassError::AuthorizationPageNotOpened)
            }
        },
        (ConnectTask::Wait(context), ConnectEvent::Returned(r)) => {
            let mut context = context;
            match r {
                Err(error) => {
                    context.wipe();
                    ConnectTask::Failed(error)
                },
                Ok(Callback::Error(_)) => {
                    context.wipe();
                    ConnectTask::Failed(AiPassError::AuthorizationNotApproved)
                },
                Ok(Callback::Code(code)) => ConnectTask::Exchange { context, code },
            }
        },
        (ConnectTask::Exchange { context, code }, ConnectEvent::Exchanged(r)) => {
            let mut context = context;
            let mut code = code;
            wipe_text(&mut code);
            match r {
                Err(error) => {
                    context.wipe();
                    ConnectTask::Failed(error)
                },
                Ok(tokens) => ConnectTask::FetchProfile { context, tokens },
            }
        },
        (ConnectTask::FetchProfile { context, tokens }, ConnectEvent::Profiled(r)) => match r {
            Err(error) => ConnectTask::RevokeRefresh { context, tokens, error },
            Ok(profile) => ConnectTask::Save { context, tokens: tokens.with_profile(profile) },
        },
        (ConnectTask::Save { context, tokens }, ConnectEvent::Saved(r)) => match r {
            Err(error) => ConnectTask::RevokeRefresh { context, tokens, error },
            Ok(_) => {
                let mut context = context;
                let mut tokens = tokens;
                let profile = tokens.profile.copy();
                context.wipe();
                tokens.wipe();
                ConnectTask::Connected(
                    ConnectionStatus::connected(Some(context.client_id.as_str()), profile),
                )
            },
        },
        (
            ConnectTask::RevokeRefresh { context, tokens, error },
            ConnectEvent::Revoked,
        ) => ConnectTask::RevokeAccess { context, tokens, error },
        (ConnectTask::RevokeAccess { context, tokens, error }, ConnectEvent::Revoked) => {
            let mut context = context;
            let mut tokens = tokens;
            context.wipe();
            tokens.wipe();
            ConnectTask::Failed(error)
        },
        (task, _) => task,
    }
}

/// The task that stands after some events.
pub open spec fn connect_run(task: ConnectTask, events: Seq<ConnectEvent>) -> ConnectTask
    decreases events.len(),
{
    if events.len() == 0 {
        task
    } else {
        connect_next(connect_run(task, events.drop_last()), events.last())
    }
}

/// The browser has come back with a code.
spec fn past_approval(task: ConnectTask) -> bool {
    task is Exchange || task is FetchProfile || task is Save || task is RevokeRefresh
        || task is RevokeAccess || task is Connected
}

proof fn approval_comes_first(events: Seq<ConnectEvent>)
    ensures
        past_approval(connect_run(ConnectTask::Load, events)) ==> exists|i: int|
            0 <= i < events.len() && (#[trigger] events[i] matches ConnectEvent::Returned(
                Ok(Callback::Code(_)),
            )),
    decreases events.len(),
{
    if events.len() > 0 && past_approval(connect_run(ConnectTask::Load, events)) {
        let before = events.drop_last();
        let task = connect_run(ConnectTask::Load, before);
        if past_approval(task) {
            approval_comes_first(before);
            let i = choose|i: int|
                0 <= i < before.len() && (#[trigger] before[i] matches ConnectEvent::Returned(
                    Ok(Callback::Code(_)),
                ));
            assert(events[i] == before[i]);
        } else {
            assert(task is Wait);
            assert(events[events.len() - 1] matches ConnectEvent::Returned(Ok(Callback::Code(_))));
        }
    }
}

proof fn saving_comes_before_success(events: Seq<ConnectEvent>)
    ensures
        connect_run(ConnectTask::Load, events) is Connected ==> exists|i: int|
            0 <= i < events.len() && (#[trigger] events[i] matches ConnectEvent::Saved(Ok(_))),
    decreases events.len(),
{
    if events.len() > 0 && connect_run(ConnectTask::Load, events) is Connected {
        let before = events.drop_last();
        let task = connect_run(ConnectTask::Load, before);
        if task is Connected {
            saving_comes_before_success(before);
            let i = choose|i: int|
                0 <= i < before.len() && (#[trigger] before[i] matches ConnectEvent::Saved(
                    Ok(_),
                ));
            assert(events[i] == before[i]);
        } else {
            assert(task is Save);
            assert(events[events.len() - 1] matches ConnectEvent::Saved(Ok(_)));
        }
    }
}

/// Whatever happens, there is a connection only after the user approved and the tokens were saved.
pub proof fn connection_needs_approval_and_saving(events: Seq<ConnectEvent>)
    ensures
        connect_run(ConnectTask::Load, events) is Connected ==> (exists|i: int|
            0 <= i < events.len() && (#[trigger] events[i] matches ConnectEvent::Returned(
                Ok(Callback::Code(_)),
            ))) && (exists|i: int|
            0 <= i < events.len() && (#[trigger] events[i] matches ConnectEvent::Saved(Ok(_)))),
{
    approval_comes_first(events);
    saving_comes_before_success(events);
}

/// Tokens of a connection that fails are given back, the refresh token first, and the failure is
/// then reported as it came.
pub proof fn failed_connection_gives_tokens_back(
    context: ConnectContext,
    tokens: TokenBundle,
    error: AiPassError,
)
    ensures
        connect_next(
            ConnectTask::FetchProfile { context, tokens },
            ConnectEvent::Profiled(Err(error)),
        ) == (ConnectTask::RevokeRefresh { context, tokens, error }),
        connect_next(ConnectTask::Save { context, tokens }, ConnectEvent::Saved(Err(error))) == (
        ConnectTask::RevokeRefresh { context, tokens, error }),
        connect_next(
            ConnectTask::RevokeRefresh { context, tokens, error },
            ConnectEvent::Revoked,
        ) == (ConnectTask::RevokeAccess { context, tokens, error }),
        connect_next(
            ConnectTask::RevokeAccess { context, tokens, error },
            ConnectEvent::Revoked,
        ) == ConnectTask::Failed(error),
{
}

/// Tokens are in hand that have not been given back.
spec fn holds_tokens(task: ConnectTask) -> bool {
    task is FetchProfile || task is Save || task is RevokeRefresh || task is RevokeAccess
}

/// Once there are tokens, connecting can only fail by way of giving both of them back.
pub proof fn tokens_are_never_abandoned(task: ConnectTask, events: Seq<ConnectEvent>)
    requires
        task is FetchProfile || task is Save,
        connect_run(task, events) is Failed,
    ensures
        exists|i: int|
            0 <= i < events.len() && #[trigger] connect_run(task, events.take(i)) is RevokeRefresh,
        exists|i: int|
            0 <= i < events.len() && #[trigger] connect_run(task, events.take(i)) is RevokeAccess,
    decreases events.len(),
{
    let before = events.drop_last();
    let last = connect_run(task, before);
    let n = before.len() as int;
    assert(events.take(n) =~= before);
    holding_goes_on(task, before);
    if last is Failed {
        tokens_are_never_abandoned(task, before);
        let i = choose|i: int|
            0 <= i < before.len() && #[trigger] connect_run(task, before.take(i)) is RevokeRefresh;
        let j = choose|j: int|
            0 <= j < before.len() && #[trigger] connect_run(task, before.take(j)) is RevokeAccess;
        assert(before.take(i) =~= events.take(i));
        assert(before.take(j) =~= events.take(j));
    } else {
        assert(last is RevokeAccess);
        assert(connect_run(task, events.take(n)) is RevokeAccess);
        access_follows_refresh(task, before);
        let i = choose|i: int|
            0 <= i < before.len() && #[trigger] connect_run(task, before.take(i)) is RevokeRefresh;
        assert(before.take(i) =~= events.take(i));
    }
}

proof fn holding_goes_on(task: ConnectTask, events: Seq<ConnectEvent>)
    requires
        task is FetchProfile || task is Save,
    ensures
        holds_tokens(connect_run(task, events)) || connect_run(task, events) is Connected
            || connect_run(task, events) is Failed,
    decreases events.len(),
{
    if events.len() > 0 {
        holding_goes_on(task, events.drop_last());
    }
}

proof fn access_follows_refresh(task: ConnectTask, events: Seq<ConnectEvent>)
    requires
        task is FetchProfile || task is Save,
        connect_run(task, events) is RevokeAccess,
    ensures
        exists|i: int|
            0 <= i < events.len() && #[trigger] connect_run(task, events.take(i)) is RevokeRefresh,
    decreases events.len(),
{
    let before = events.drop_last();
    let n = before.len() as int;
    assert(events.take(n) =~= before);
    holding_goes_on(task, before);
    if connect_run(task, before) is RevokeAccess {
        access_follows_refresh(task, before);
        let i = choose|i: int|
            0 <= i < before.len() && #[trigger] connect_run(task, before.take(i)) is RevokeRefresh;
        assert(before.take(i) =~= events.take(i));
    } else {
        assert(connect_run(task, events.take(n)) is RevokeRefresh);
    }
}

/// What the task is carried through with, once the page is known.
pub open spec fn context_of(task: ConnectTask) -> Option<ConnectContext> {
    match task {
        ConnectTask::Open(context) => Some(context),
        ConnectTask::Wait(context) => Some(context),
        ConnectTask::Exchange { context, .. } => Some(context),
        ConnectTask::FetchProfile { context, .. } => Some(context),
        ConnectTask::Save { context, .. } => Some(context),
        ConnectTask::RevokeRefresh { context, .. } => Some(context),
        ConnectTask::RevokeAccess { context, .. } => Some(context),
        _ => None,
    }
}

/// The tokens in hand.
pub open spec fn tokens_of(task: ConnectTask) -> Option<TokenBundle> {
    match task {
        ConnectTask::FetchProfile { tokens, .. } => Some(tokens),
        ConnectTask::Save { tokens, .. } => Some(tokens),
        ConnectTask::RevokeRefresh { tokens, .. } => Some(tokens),
        ConnectTask::RevokeAccess { tokens, .. } => Some(tokens),
        _ => None,
    }
}

/// The client, the endpoints, the proof key and the address that the code is exchanged with are
/// those of the page that was opened; they never change on the way.
pub proof fn attempt_stays_the_same(context: ConnectContext, events: Seq<ConnectEvent>)
    ensures
        match context_of(connect_run(ConnectTask::Open(context), events)) {
            Some(later) => later == context,
            None => connect_run(ConnectTask::Open(context), events) is Connected || connect_run(
                ConnectTask::Open(context),
                events,
            ) is Failed,
        },
    decreases events.len(),
{
    if events.len() > 0 {
        attempt_stays_the_same(context, events.drop_last());
    }
}

/// The page that is opened and the exchange belong together: from the preparation on, the page
/// carries the challenge of the very proof key that the code is exchanged with, the state that the
/// return is recognised by, and the address that the exchange names.
pub proof fn exchange_answers_the_opened_page(
    client_id: String,
    metadata: OAuthMetadata,
    attempt: Attempt,
    port: u16,
    events: Seq<ConnectEvent>,
)
    requires
        attempt_is(attempt, metadata.authorization_endpoint@, client_id@, port),
    ensures
        ({
            let start = connect_next(
                ConnectTask::Listen { client_id, metadata },
                ConnectEvent::Prepared(Ok(attempt)),
            );
            context_of(connect_run(start, events)) matches Some(context) ==> {
                &&& context.client_id == client_id
                &&& context.metadata == metadata
                &&& context.attempt == attempt
                &&& context.attempt.redirect_uri@ == loopback_uri(port)
                &&& context.attempt.url@ == authorization_url(
                    url_of(context.metadata.authorization_endpoint@)->0.href,
                    context.client_id@,
                    context.attempt.redirect_uri@,
                    challenge_of(context.attempt.verifier@),
                    context.attempt.state@,
                )
            }
        }),
{
    attempt_stays_the_same(ConnectContext { client_id, metadata, attempt }, events);
}

/// The tokens that are saved, or given back, are those that the code was exchanged for.
pub proof fn tokens_stay_the_same(
    context: ConnectContext,
    tokens: TokenBundle,
    events: Seq<ConnectEvent>,
)
    ensures
        ({
            let task = connect_run(ConnectTask::FetchProfile { context, tokens }, events);
            match tokens_of(task) {
                Some(later) => {
                    &&& later.access_token == tokens.access_token
                    &&& later.refresh_token == tokens.refresh_token
                    &&& later.scope == tokens.scope
                    &&& later.expires_at_epoch_seconds == tokens.expires_at_epoch_seconds
                },
                None => task is Connected || task is Failed,
            }
        }),
    decreases events.len(),
{
    if events.len() > 0 {
        tokens_stay_the_same(context, tokens, events.drop_last());
    }
}

/// An earlier connection is never replaced: nothing that happens afterwards undoes the refusal.
pub proof fn earlier_connection_is_kept(client_id: Option<String>, events: Seq<ConnectEvent>)
    ensures
        connect_run(
            connect_next(ConnectTask::Load, ConnectEvent::Loaded { stored: Ok(true), client_id }),
            events,
        ) == ConnectTask::Failed(AiPassError::AlreadyConnected),
    decreases events.len(),
{
    if events.len() > 0 {
        earlier_connection_is_kept(client_id, events.drop_last());
    }
}

/// Connecting takes its course: without an earlier connection, in a build with a client, each task
/// that succeeds leads to the next one, with what it gave, and in the end to the status of the user
/// whose profile was fetched.
pub proof fn connecting_takes_its_course(
    context: ConnectContext,
    code: String,
    tokens: TokenBundle,
    profile: Profile,
)
    ensures
        ({
            let ConnectContext { client_id, metadata, attempt } = context;
            &&& connect_next(
                ConnectTask::Load,
                ConnectEvent::Loaded { stored: Ok(false), client_id: Some(client_id) },
            ) == (ConnectTask::Discover { client_id })
            &&& connect_next(
                ConnectTask::Discover { client_id },
                ConnectEvent::Discovered(Ok(metadata)),
            ) == (ConnectTask::Listen { client_id, metadata })
            &&& connect_next(
                ConnectTask::Listen { client_id, metadata },
                ConnectEvent::Prepared(Ok(attempt)),
            ) == ConnectTask::Open(context)
            &&& connect_next(ConnectTask::Open(context), ConnectEvent::Opened(true))
                == ConnectTask::Wait(context)
            &&& connect_next(
                ConnectTask::Wait(context),
                ConnectEvent::Returned(Ok(Callback::Code(code))),
            ) == (ConnectTask::Exchange { context, code })
            &&& connect_next(
                ConnectTask::Exchange { context, code },
                ConnectEvent::Exchanged(Ok(tokens)),
            ) == (ConnectTask::FetchProfile { context, tokens })
            &&& connect_next(
                ConnectTask::FetchProfile { context, tokens },
                ConnectEvent::Profiled(Ok(profile)),
            ) matches ConnectTask::Save { context: same, tokens: saved } && same == context
                && saved.profile == profile && saved.access_token == tokens.access_token
                && saved.refresh_token == tokens.refresh_token && saved.scope == tokens.scope
                && saved.expires_at_epoch_seconds == tokens.expires_at_epoch_seconds
            &&& connect_next(
                ConnectTask::Save { context, tokens },
                ConnectEvent::Saved(Ok(())),
            ) matches ConnectTask::Connected(status) && status.configured && status.connected
                && status.display_name == tokens.profile.display_name && status.email
                == tokens.profile.email
        }),
{
}

/// Connecting fails where it cannot go on, with the failure as it came; before there are tokens,
/// nothing else follows.
pub proof fn connecting_fails_as_it_came(
    context: ConnectContext,
    code: String,
    name: String,
    client: Option<String>,
    error: AiPassError,
)
    ensures
        ({
            let ConnectContext { client_id, metadata, .. } = context;
            &&& connect_next(
                ConnectTask::Load,
                ConnectEvent::Loaded { stored: Err(error), client_id: client },
            ) == ConnectTask::Failed(error)
            &&& connect_next(
                ConnectTask::Load,
                ConnectEvent::Loaded { stored: Ok(true), client_id: client },
            ) == ConnectTask::Failed(AiPassError::AlreadyConnected)
            &&& connect_next(
                ConnectTask::Load,
                ConnectEvent::Loaded { stored: Ok(false), client_id: None },
            ) == ConnectTask::Failed(AiPassError::NotConfigured)
            &&& connect_next(
                ConnectTask::Discover { client_id },
                ConnectEvent::Discovered(Err(error)),
            ) == ConnectTask::Failed(error)
            &&& connect_next(
                ConnectTask::Listen { client_id, metadata },
                ConnectEvent::Prepared(Err(error)),
            ) == ConnectTask::Failed(error)
            &&& connect_next(ConnectTask::Open(context), ConnectEvent::Opened(false))
                == ConnectTask::Failed(AiPassError::AuthorizationPageNotOpened)
            &&& connect_next(ConnectTask::Wait(context), ConnectEvent::Returned(Err(error)))
                == ConnectTask::Failed(error)
            &&& connect_next(
                ConnectTask::Wait(context),
                ConnectEvent::Returned(Ok(Callback::Error(name))),
            ) == ConnectTask::Failed(AiPassError::AuthorizationNotApproved)
            &&& connect_next(
                ConnectTask::Exchange { context, code },
                ConnectEvent::Exchanged(Err(error)),
            ) == ConnectTask::Failed(error)
        }),
{
}

} // verus!
