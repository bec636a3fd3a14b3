use aipass::ask::{ask, AskEvent, AskTask, BodyBounds, Call};
use aipass::callback::Callback;
use aipass::clear::{clear_connection, ClearEvent, ClearTask};
use aipass::connect::{aipass_connect, Attempt, ConnectEvent, ConnectTask};
use aipass::disconnect::{aipass_disconnect, aipass_status, DisconnectEvent, DisconnectTask};
use aipass::error::AiPassError;
use aipass::metadata::OAuthMetadata;
use aipass::profile::Profile;
use aipass::renew::{refresh_access_token, RenewEvent, RenewTask};
use aipass::tokens::{renewal_reply, KeychainReply, TokenBundle};

fn metadata() -> OAuthMetadata {
    OAuthMetadata {
        issuer: "i".into(),
        authorization_endpoint: "a".into(),
        token_endpoint: "t".into(),
        userinfo_endpoint: "u".into(),
        revocation_endpoint: "r".into(),
    }
}

fn tokens(name: &str, expires: u64) -> TokenBundle {
    TokenBundle {
        access_token: format!("access-{name}"),
        refresh_token: format!("refresh-{name}"),
        expires_at_epoch_seconds: expires,
        scope: Some("scope".into()),
        profile: Profile { display_name: Some(name.into()), email: None },
    }
}

fn attempt() -> Attempt {
    Attempt {
        redirect_uri: "redirect".into(),
        verifier: "verifier".into(),
        state: "state".into(),
        url: "url".into(),
    }
}

fn loaded(stored: Result<bool, AiPassError>, client: Option<&str>) -> ConnectEvent {
    ConnectEvent::Loaded { stored, client_id: client.map(str::to_string) }
}

fn connected_until(events: Vec<ConnectEvent>) -> ConnectTask {
    events.into_iter().fold(ConnectTask::Load, aipass_connect)
}

fn opened() -> Vec<ConnectEvent> {
    vec![
        loaded(Ok(false), Some("client")),
        ConnectEvent::Discovered(Ok(metadata())),
        ConnectEvent::Prepared(Ok(attempt())),
        ConnectEvent::Opened(true),
    ]
}

fn exchanged() -> Vec<ConnectEvent> {
    let mut events = opened();
    events.push(ConnectEvent::Returned(Ok(Callback::Code("code".into()))));
    events.push(ConnectEvent::Exchanged(Ok(tokens("first", 5))));
    events
}

#[test]
fn connecting_ends_with_saved_tokens() {
    let mut events = opened();
    events.push(ConnectEvent::Returned(Ok(Callback::Code("code".into()))));
    match connected_until(events) {
        ConnectTask::Exchange { context, code } => {
            assert_eq!(code, "code");
            assert_eq!(context.client_id, "client");
            assert_eq!(context.attempt.verifier, "verifier");
            assert_eq!(context.attempt.redirect_uri, "redirect");
            assert_eq!(context.metadata.token_endpoint, "t");
        }
        _ => panic!("no exchange"),
    }
    let mut events = exchanged();
    let profile = Profile { display_name: Some("Ada".into()), email: Some("a@b".into()) };
    events.push(ConnectEvent::Profiled(Ok(profile.copy())));
    match connected_until(events) {
        ConnectTask::Save { tokens, .. } => {
            assert_eq!(tokens.access_token, "access-first");
            assert_eq!(tokens.refresh_token, "refresh-first");
            assert_eq!(tokens.profile.display_name.as_deref(), Some("Ada"));
        }
        _ => panic!("not saved"),
    }
    let mut events = exchanged();
    events.push(ConnectEvent::Profiled(Ok(profile)));
    events.push(ConnectEvent::Saved(Ok(())));
    match connected_until(events) {
        ConnectTask::Connected(status) => {
            assert!(status.configured && status.connected);
            assert_eq!(status.display_name.as_deref(), Some("Ada"));
            assert_eq!(status.email.as_deref(), Some("a@b"));
        }
        _ => panic!("not connected"),
    }
}

fn connect_failure(events: Vec<ConnectEvent>) -> AiPassError {
    match connected_until(events) {
        ConnectTask::Failed(error) => error,
        _ => panic!("not failed"),
    }
}

#[test]
fn connecting_fails_where_it_cannot_go_on() {
    assert_eq!(
        connect_failure(vec![loaded(Err(AiPassError::KeychainUnavailable), Some("c"))]),
        AiPassError::KeychainUnavailable
    );
    assert_eq!(connect_failure(vec![loaded(Ok(true), None)]), AiPassError::AlreadyConnected);
    assert_eq!(connect_failure(vec![loaded(Ok(false), None)]), AiPassError::NotConfigured);
    assert_eq!(
        connect_failure(vec![
            loaded(Ok(false), Some("c")),
            ConnectEvent::Discovered(Err(AiPassError::MetadataRejected)),
        ]),
        AiPassError::MetadataRejected
    );
    assert_eq!(
        connect_failure(vec![
            loaded(Ok(false), Some("c")),
            ConnectEvent::Discovered(Ok(metadata())),
            ConnectEvent::Prepared(Err(AiPassError::CallbackNotStarted)),
        ]),
        AiPassError::CallbackNotStarted
    );
    assert_eq!(
        connect_failure(vec![
            loaded(Ok(false), Some("c")),
            ConnectEvent::Discovered(Ok(metadata())),
            ConnectEvent::Prepared(Ok(attempt())),
            ConnectEvent::Opened(false),
        ]),
        AiPassError::AuthorizationPageNotOpened
    );
    let mut events = opened();
    events.push(ConnectEvent::Returned(Err(AiPassError::ConnectionTimedOut)));
    assert_eq!(connect_failure(events), AiPassError::ConnectionTimedOut);
    let mut events = opened();
    events.push(ConnectEvent::Returned(Ok(Callback::Error("denied".into()))));
    assert_eq!(connect_failure(events), AiPassError::AuthorizationNotApproved);
    let mut events = opened();
    events.push(ConnectEvent::Returned(Ok(Callback::Code("code".into()))));
    events.push(ConnectEvent::Exchanged(Err(AiPassError::ExchangeRejected)));
    assert_eq!(connect_failure(events), AiPassError::ExchangeRejected);
}

#[test]
fn tokens_of_a_failed_connection_are_given_back() {
    for last in [
        vec![ConnectEvent::Profiled(Err(AiPassError::ProfileRejected))],
        vec![
            ConnectEvent::Profiled(Ok(Profile::default())),
            ConnectEvent::Saved(Err(AiPassError::ProfileRejected)),
        ],
    ] {
        let task = exchanged().into_iter().chain(last).fold(ConnectTask::Load, aipass_connect);
        let task = match task {
            ConnectTask::RevokeRefresh { ref tokens, ref context, .. } => {
                assert_eq!(tokens.refresh_token, "refresh-first");
                assert_eq!(context.metadata.revocation_endpoint, "r");
                aipass_connect(task, ConnectEvent::Revoked)
            }
            _ => panic!("refresh token kept"),
        };
        let task = match task {
            ConnectTask::RevokeAccess { ref tokens, .. } => {
                assert_eq!(tokens.access_token, "access-first");
                aipass_connect(task, ConnectEvent::Revoked)
            }
            _ => panic!("access token kept"),
        };
        assert!(matches!(task, ConnectTask::Failed(AiPassError::ProfileRejected)));
    }
}

#[test]
fn foreign_events_change_nothing() {
    let task = aipass_connect(ConnectTask::Load, ConnectEvent::Saved(Ok(())));
    assert!(matches!(task, ConnectTask::Load));
    let task = refresh_access_token(RenewTask::ClearExpired, RenewEvent::Answered(Some(200)));
    assert!(matches!(task, RenewTask::ClearExpired));
    let task = aipass_disconnect(DisconnectTask::Load, DisconnectEvent::Revoked);
    assert!(matches!(task, DisconnectTask::Load));
    let task = aipass_disconnect(DisconnectTask::Lock, DisconnectEvent::ChatsCancelled);
    assert!(matches!(task, DisconnectTask::Lock));
    let task = clear_connection(ClearTask::Cancel, ClearEvent::Announced);
    assert!(matches!(task, ClearTask::Cancel));
    let task = ask(AskTask::Request { renewed: false }, AskEvent::Cleared(Ok(())));
    assert_eq!(task, AskTask::Request { renewed: false });
}

fn renewed(force: bool, events: Vec<RenewEvent>) -> RenewTask {
    events.into_iter().fold(RenewTask::Load { force }, refresh_access_token)
}

fn stored(expires: u64, now: u64, client: Option<&str>) -> RenewEvent {
    RenewEvent::Loaded {
        tokens: Ok(Some(tokens("old", expires))),
        now: Ok(now),
        client_id: client.map(str::to_string),
    }
}

fn asked() -> Vec<RenewEvent> {
    vec![stored(10, 0, Some("client")), RenewEvent::Discovered(Ok(metadata()))]
}

#[test]
fn good_access_tokens_are_used() {
    match renewed(false, vec![stored(1000, 0, None)]) {
        RenewTask::Ready { access_token } => assert_eq!(access_token, "access-old"),
        _ => panic!("not ready"),
    }
    assert!(matches!(
        renewed(true, vec![stored(1000, 0, Some("client"))]),
        RenewTask::Discover { .. }
    ));
    assert!(matches!(
        renewed(false, vec![stored(60, 0, Some("client"))]),
        RenewTask::Discover { .. }
    ));
}

fn renew_failure(force: bool, events: Vec<RenewEvent>) -> AiPassError {
    match renewed(force, events) {
        RenewTask::Failed(error) => error,
        _ => panic!("not failed"),
    }
}

#[test]
fn renewal_fails_without_harm_before_it_is_granted() {
    let load = |tokens, now| RenewEvent::Loaded { tokens, now, client_id: None };
    assert_eq!(
        renew_failure(false, vec![load(Err(AiPassError::KeychainInvalid), Ok(0))]),
        AiPassError::KeychainInvalid
    );
    assert_eq!(renew_failure(false, vec![load(Ok(None), Ok(0))]), AiPassError::NotConnected);
    assert_eq!(
        renew_failure(
            false,
            vec![load(Ok(Some(tokens("old", 9))), Err(AiPassError::ClockUnavailable))]
        ),
        AiPassError::ClockUnavailable
    );
    assert_eq!(renew_failure(true, vec![stored(1000, 0, None)]), AiPassError::NotConfigured);
    assert_eq!(
        renew_failure(
            false,
            vec![
                stored(10, 0, Some("client")),
                RenewEvent::Discovered(Err(AiPassError::MetadataUnavailable))
            ]
        ),
        AiPassError::MetadataUnavailable
    );
    for status in [None, Some(500), Some(403), Some(302)] {
        let mut events = asked();
        events.push(RenewEvent::Answered(status));
        assert_eq!(renew_failure(false, events), AiPassError::RefreshFailed);
    }
}

#[test]
fn expired_connections_are_cleared() {
    for status in [400, 401] {
        let mut events = asked();
        events.push(RenewEvent::Answered(Some(status)));
        assert!(matches!(renewed(false, events), RenewTask::ClearExpired));
    }
    assert!(matches!(
        refresh_access_token(RenewTask::ClearExpired, RenewEvent::Cleared(Ok(()))),
        RenewTask::Failed(AiPassError::ConnectionExpired)
    ));
    assert!(matches!(
        refresh_access_token(
            RenewTask::ClearExpired,
            RenewEvent::Cleared(Err(AiPassError::KeychainNotCleared))
        ),
        RenewTask::Failed(AiPassError::KeychainNotCleared)
    ));
}

#[test]
fn granted_renewals_are_saved_or_cleared() {
    let mut events = asked();
    events.push(RenewEvent::Answered(Some(200)));
    match renewed(false, events) {
        RenewTask::Read { tokens } => assert_eq!(tokens.refresh_token, "refresh-old"),
        _ => panic!("not read"),
    }
    let mut fresh = tokens("new", 99);
    fresh.profile = Profile::default();
    let mut events = asked();
    events.push(RenewEvent::Answered(Some(200)));
    events.push(RenewEvent::Renewed(Ok(fresh)));
    let task = renewed(false, events);
    match &task {
        RenewTask::Save { tokens } => {
            assert_eq!(tokens.access_token, "access-new");
            assert_eq!(tokens.refresh_token, "refresh-new");
            assert_eq!(tokens.profile.display_name.as_deref(), Some("old"));
        }
        _ => panic!("not saved"),
    }
    match refresh_access_token(task, RenewEvent::Saved(Ok(()))) {
        RenewTask::Ready { access_token } => assert_eq!(access_token, "access-new"),
        _ => panic!("not ready"),
    }

    let read = renewal_reply(
        br#"{"access_token": "a2", "expires_in": 9, "token_type": "bearer"}"#,
        &TokenBundle { scope: Some("api:access profile:read".into()), ..tokens("old", 1) },
    );
    let task = refresh_access_token(
        RenewTask::Read { tokens: tokens("old", 1) },
        RenewEvent::Renewed(read),
    );
    match &task {
        RenewTask::Save { tokens } => {
            assert_eq!(tokens.access_token, "a2");
            assert_eq!(tokens.refresh_token, "refresh-old");
            assert_eq!(tokens.scope.as_deref(), Some("api:access profile:read"));
            assert_eq!(tokens.profile.display_name.as_deref(), Some("old"));
        }
        _ => panic!("not saved"),
    }

    let broken = refresh_access_token(
        RenewTask::Read { tokens: tokens("old", 1) },
        RenewEvent::Renewed(Err(AiPassError::TokenResponseInvalid)),
    );
    assert!(matches!(broken, RenewTask::ClearBroken(AiPassError::TokenResponseInvalid)));
    let unsaved = refresh_access_token(
        RenewTask::Save { tokens: tokens("new", 1) },
        RenewEvent::Saved(Err(AiPassError::KeychainNotSaved)),
    );
    assert!(matches!(unsaved, RenewTask::ClearBroken(AiPassError::KeychainNotSaved)));
    let cleared = refresh_access_token(
        unsaved,
        RenewEvent::Cleared(Err(AiPassError::KeychainNotCleared)),
    );
    assert!(matches!(cleared, RenewTask::Failed(AiPassError::KeychainNotSaved)));
}

fn answered(events: Vec<AskEvent>) -> AskTask {
    events.into_iter().fold(AskTask::Request { renewed: false }, ask)
}

#[test]
fn refused_access_tokens_are_renewed_once() {
    assert_eq!(answered(vec![AskEvent::Replied(Ok(200))]), AskTask::Reply { status: 200 });
    assert_eq!(answered(vec![AskEvent::Replied(Ok(500))]), AskTask::Reply { status: 500 });
    assert_eq!(
        answered(vec![AskEvent::Replied(Err(AiPassError::ModelsFailed))]),
        AskTask::Failed(AiPassError::ModelsFailed)
    );
    assert_eq!(answered(vec![AskEvent::Replied(Ok(401))]), AskTask::Request { renewed: true });
    assert_eq!(
        answered(vec![AskEvent::Replied(Ok(401)), AskEvent::Replied(Ok(204))]),
        AskTask::Reply { status: 204 }
    );
    assert_eq!(
        answered(vec![AskEvent::Replied(Ok(401)), AskEvent::Replied(Ok(401))]),
        AskTask::Clear { status: 401 }
    );
    assert_eq!(
        ask(AskTask::Clear { status: 401 }, AskEvent::Cleared(Ok(()))),
        AskTask::Reply { status: 401 }
    );
    assert_eq!(
        ask(
            AskTask::Clear { status: 401 },
            AskEvent::Cleared(Err(AiPassError::KeychainNotCleared))
        ),
        AskTask::Failed(AiPassError::KeychainNotCleared)
    );
}

#[test]
fn calls_have_their_errors_and_bounds() {
    for (call, failure, refusal, maximum, seconds) in [
        (
            Call::Metadata,
            AiPassError::MetadataUnavailable,
            AiPassError::MetadataUnavailable,
            64 * 1024,
            10,
        ),
        (
            Call::Exchange,
            AiPassError::ExchangeFailed,
            AiPassError::ExchangeRejected,
            64 * 1024,
            10,
        ),
        (
            Call::Profile,
            AiPassError::ProfileUnavailable,
            AiPassError::ProfileRejected,
            64 * 1024,
            10,
        ),
        (
            Call::Models,
            AiPassError::ModelsFailed,
            AiPassError::ModelsRejected,
            2 * 1024 * 1024,
            15,
        ),
    ] {
        assert_eq!(call.failure(), failure);
        assert_eq!(call.judge(404), Err(refusal));
        assert_eq!(call.judge(200), Ok(BodyBounds { maximum, seconds }));
    }
}

fn locked() -> Vec<DisconnectEvent> {
    vec![
        DisconnectEvent::ChatsCancelled,
        DisconnectEvent::Locked,
        DisconnectEvent::ChatsCancelled,
    ]
}

fn disconnected(events: Vec<DisconnectEvent>) -> DisconnectTask {
    locked()
        .into_iter()
        .chain(events)
        .fold(DisconnectTask::CancelChats, aipass_disconnect)
}

#[test]
fn chats_are_stopped_on_both_sides_of_the_locks() {
    let task = aipass_disconnect(DisconnectTask::CancelChats, DisconnectEvent::ChatsCancelled);
    assert!(matches!(task, DisconnectTask::Lock));
    let task = aipass_disconnect(task, DisconnectEvent::Locked);
    assert!(matches!(task, DisconnectTask::CancelLateChats));
    let task = aipass_disconnect(task, DisconnectEvent::ChatsCancelled);
    assert!(matches!(task, DisconnectTask::Load));

    let early = aipass_disconnect(DisconnectTask::CancelChats, DisconnectEvent::Locked);
    assert!(matches!(early, DisconnectTask::CancelChats));
    let early = aipass_disconnect(DisconnectTask::CancelLateChats, held(None));
    assert!(matches!(early, DisconnectTask::CancelLateChats));
}

#[test]
fn a_failed_load_ends_disconnecting() {
    let mut events = vec![DisconnectEvent::Loaded {
        tokens: Err(AiPassError::KeychainUnavailable),
        client_id: Some("c".into()),
    }];
    events.push(DisconnectEvent::Cleared(Ok(())));
    events.push(DisconnectEvent::Discovered(Ok(metadata())));
    assert!(matches!(
        disconnected(events),
        DisconnectTask::Failed(AiPassError::KeychainUnavailable)
    ));
}

fn cleared(events: Vec<ClearEvent>) -> ClearTask {
    events.into_iter().fold(ClearTask::Cancel, clear_connection)
}

fn deletion(reply: KeychainReply<()>, client: Option<&str>) -> ClearEvent {
    ClearEvent::Deleted { reply, client_id: client.map(str::to_string) }
}

#[test]
fn clearing_stops_then_deletes_then_tells() {
    assert!(matches!(cleared(vec![]), ClearTask::Cancel));
    assert!(matches!(
        cleared(vec![deletion(KeychainReply::Done(()), None)]),
        ClearTask::Cancel
    ));
    assert!(matches!(cleared(vec![ClearEvent::Cancelled]), ClearTask::Delete));
    for (reply, client) in [
        (KeychainReply::Done(()), Some("client")),
        (KeychainReply::Failed(-25300), None),
    ] {
        let task = cleared(vec![ClearEvent::Cancelled, deletion(reply, client)]);
        match &task {
            ClearTask::Announce(status) => {
                assert_eq!(status.configured, client.is_some());
                assert!(!status.connected);
                assert!(status.display_name.is_none() && status.email.is_none());
            }
            _ => panic!("not told"),
        }
        assert!(matches!(clear_connection(task, ClearEvent::Announced), ClearTask::Done));
    }
    assert!(matches!(
        cleared(vec![
            ClearEvent::Cancelled,
            deletion(KeychainReply::Failed(1), Some("client")),
            ClearEvent::Announced,
        ]),
        ClearTask::Failed(AiPassError::KeychainNotCleared)
    ));
}

fn held(client: Option<&str>) -> DisconnectEvent {
    DisconnectEvent::Loaded {
        tokens: Ok(Some(tokens("old", 1))),
        client_id: client.map(str::to_string),
    }
}

#[test]
fn disconnecting_clears_before_it_revokes() {
    assert!(matches!(
        disconnected(vec![DisconnectEvent::Loaded {
            tokens: Err(AiPassError::KeychainUnavailable),
            client_id: None
        }]),
        DisconnectTask::Failed(AiPassError::KeychainUnavailable)
    ));
    assert!(matches!(disconnected(vec![held(Some("c"))]), DisconnectTask::Clear { .. }));
    let task = disconnected(vec![held(Some("c")), DisconnectEvent::Cleared(Ok(()))]);
    let task = match task {
        DisconnectTask::Discover { .. } => {
            aipass_disconnect(task, DisconnectEvent::Discovered(Ok(metadata())))
        }
        _ => panic!("not discovered"),
    };
    let task = match task {
        DisconnectTask::RevokeRefresh { ref tokens, ref client_id, ref metadata, .. } => {
            assert_eq!(tokens.refresh_token, "refresh-old");
            assert_eq!(client_id, "c");
            assert_eq!(metadata.revocation_endpoint, "r");
            aipass_disconnect(task, DisconnectEvent::Revoked)
        }
        _ => panic!("refresh token kept"),
    };
    let task = match task {
        DisconnectTask::RevokeAccess { ref tokens, .. } => {
            assert_eq!(tokens.access_token, "access-old");
            aipass_disconnect(task, DisconnectEvent::Revoked)
        }
        _ => panic!("access token kept"),
    };
    assert!(matches!(task, DisconnectTask::Disconnected));
}

#[test]
fn the_service_has_no_say_in_disconnecting() {
    for cleared in [Ok(()), Err(AiPassError::KeychainNotCleared)] {
        let ends = |task: DisconnectTask| match (task, cleared) {
            (DisconnectTask::Disconnected, Ok(())) => true,
            (DisconnectTask::Failed(error), Err(same)) => error == same,
            _ => false,
        };
        assert!(ends(disconnected(vec![held(None), DisconnectEvent::Cleared(cleared)])));
        assert!(ends(disconnected(vec![
            DisconnectEvent::Loaded { tokens: Ok(None), client_id: Some("c".into()) },
            DisconnectEvent::Cleared(cleared),
        ])));
        assert!(ends(disconnected(vec![
            held(Some("c")),
            DisconnectEvent::Cleared(cleared),
            DisconnectEvent::Discovered(Err(AiPassError::MetadataUnavailable)),
        ])));
        assert!(ends(disconnected(vec![
            held(Some("c")),
            DisconnectEvent::Cleared(cleared),
            DisconnectEvent::Discovered(Ok(metadata())),
            DisconnectEvent::Revoked,
            DisconnectEvent::Revoked,
        ])));
    }
}

#[test]
fn status_follows_the_stored_tokens() {
    let status = aipass_status(Some("c"), Ok(Some(tokens("Ada", 1)))).expect("status");
    assert!(status.configured && status.connected);
    assert_eq!(status.display_name.as_deref(), Some("Ada"));
    let status = aipass_status(None, Ok(None)).expect("status");
    assert!(!status.configured && !status.connected && status.display_name.is_none());
    assert_eq!(
        aipass_status(None, Err(AiPassError::KeychainInvalid)).err(),
        Some(AiPassError::KeychainInvalid)
    );
}
