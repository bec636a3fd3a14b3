//! The access token of a connection: when it is renewed, and what becomes of the connection when
//! that fails.
//!
//! A task says what is to be done next; `refresh_access_token` takes a task and what came of it to
//! the next task.
use crate::clock::clock_gave;
use crate::error::{viewed, AiPassError};
use crate::json::{json_document, JsonView};
use crate::metadata::OAuthMetadata;
use crate::tokens::{
    is_renewal_due, renewal_due, renews, token_outcome, TokenBundle, TokenView,
    RENEWAL_MARGIN_SECONDS,
};
use crate::transfer::{is_success, success};
use vstd::prelude::*;

verus! {

/// What is to be done next to have an access token.
pub enum RenewTask {
    /// Load the tokens.
    Load { force: bool },
    /// Fetch the metadata of the service.
    Discover { client_id: String, tokens: TokenBundle },
    /// Ask for new tokens.
    Request { client_id: String, tokens: TokenBundle, metadata: OAuthMetadata },
    /// Read the new tokens, which renew these.
    Read { tokens: TokenBundle },
    /// Save the new tokens.
    Save { tokens: TokenBundle },
    /// Clear the connection, which the service no longer knows, as `clear_connection` has it.
    ClearExpired,
    /// Clear the connection, whose tokens are spent, as `clear_connection` has it, and fail.
    ClearBroken(AiPassError),
    /// Nothing: the access token can be used.
    Ready { access_token: String },
    /// Nothing: there is no access token.
    Failed(AiPassError),
}

/// What came of a task of renewing.
pub enum RenewEvent {
    /// The tokens, the time, and the client of this build.
    Loaded {
        tokens: Result<Option<TokenBundle>, AiPassError>,
        now: Result<u64, AiPassError>,
        client_id: Option<String>,
    },
    Discovered(Result<OAuthMetadata, AiPassError>),
    /// The status of the reply, if there was one.
    Answered(Option<u16>),
    Renewed(Result<TokenBundle, AiPassError>),
    Saved(Result<(), AiPassError>),
    Cleared(Result<(), AiPassError>),
}

/// The service says with this status that it does not know the connection any more.
pub open spec fn expired(status: u16) -> bool {
    status == 400 || status == 401
}

/// The task that follows. An event that does not belong to the task leaves it as it is.
pub open spec fn renew_next(task: RenewTask, event: RenewEvent) -> RenewTask {
    match (task, event) {
        (RenewTask::Load { force }, RenewEvent::Loaded { tokens, now, client_id }) => match (
            tokens,
            now,
        ) {
            (Err(error), _) => RenewTask::Failed(error),
            (Ok(None), _) => RenewTask::Failed(AiPassError::NotConnected),
            (Ok(Some(_)), Err(error)) => RenewTask::Failed(error),
            (Ok(Some(tokens)), Ok(now)) => if !renewal_due(
                tokens.expires_at_epoch_seconds,
                now,
                force,
            ) {
                RenewTask::Ready { access_token: tokens.access_token }
            } else {
                match client_id {
                    None => RenewTask::Failed(AiPassError::NotConfigured),
                    Some(client_id) => RenewTask::Discover { client_id, tokens },
                }
            },
        },
        (RenewTask::Discover { client_id, tokens }, RenewEvent::Discovered(r)) => match r {
            Err(error) => RenewTask::Failed(error),
            Ok(metadata) => RenewTask::Request { client_id, tokens, metadata },
        },
        (RenewTask::Request { tokens, .. }, RenewEvent::Answered(status)) => match status {
            None => RenewTask::Failed(AiPassError::RefreshFailed),
            Some(status) => if success(status) {
                RenewTask::Read { tokens }
            } else if expired(status) {
                RenewTask::ClearExpired
            } else {
                RenewTask::Failed(AiPassError::RefreshFailed)
            },
        },
        (RenewTask::Read { tokens }, RenewEvent::Renewed(r)) => match r {
            Err(error) => RenewTask::ClearBroken(error),
            Ok(renewed) => RenewTask::Save {
                tokens: TokenBundle { profile: tokens.profile, ..renewed },
            },
        },
        (RenewTask::Save { tokens }, RenewEvent::Saved(r)) => match r {
            Err(error) => RenewTask::ClearBroken(error),
            Ok(_) => RenewTask::Ready { access_token: tokens.access_token },
        },
        (RenewTask::ClearExpired, RenewEvent::Cleared(r)) => match r {
            Err(error) => RenewTask::Failed(error),
            Ok(_) => RenewTask::Failed(AiPassError::ConnectionExpired),
        },
        (RenewTask::ClearBroken(error), RenewEvent::Cleared(_)) => RenewTask::Failed(error),
        _ => task,
    }
}

/// Takes what came of a task of renewing. Secrets are wiped when they have served.
pub fn refresh_access_token(task: RenewTask, event: RenewEvent) -> (r: RenewTask)
    ensures
        r == renew_next(task, event),
{
    match (task, event) {
        (RenewTask::Load { force }, RenewEvent::Loaded { tokens, now, client_id }) => {
            let mut tokens = match tokens {
                Err(error) => {
                    return RenewTask::Failed(error);
                },
                Ok(None) => {
                    return RenewTask::Failed(AiPassError::NotConnected);
                },
                Ok(Some(tokens)) => tokens,
            };
            let now: u64 = match now {
                Err(error) => {
                    tokens.wipe();
                    return RenewTask::Failed(error);
                },
                Ok(now) => now,
            };
            if !is_renewal_due(tokens.expires_at_epoch_seconds, now, force) {
                let access_token = tokens.access_token.clone();
                tokens.wipe();
                return RenewTask::Ready { access_token };
            }
            match client_id {
                None => {
                    tokens.wipe();
                    RenewTask::Failed(AiPassError::NotConfigured)
                },
                Some(client_id) => RenewTask::Discover { client_id, tokens },
            }
        },
        (RenewTask::Discover { client_id, tokens }, RenewEvent::Discovered(r)) => match r {
            Err(error) => {
                let mut tokens = tokens;
                tokens.wipe();
                RenewTask::Failed(error)
            },
            Ok(metadata) => RenewTask::Request { client_id, tokens, metadata },
        },
        (RenewTask::Request { client_id: _, tokens, metadata: _ }, RenewEvent::Answered(status)) => {
            let mut tokens = tokens;
            match status {
                None => {
                    tokens.wipe();
                    RenewTask::Failed(AiPassError::RefreshFailed)
                },
                Some(status) => {
                    if is_success(status) {
                        return RenewTask::Read { tokens };
                    }
                    tokens.wipe();
                    if status == 400 || status == 401 {
                        RenewTask::ClearExpired
                    } else {
                        RenewTask::Failed(AiPassError::RefreshFailed)
                    }
                },
            }
        },
        (RenewTask::Read { tokens }, RenewEvent::Renewed(r)) => {
            let mut tokens = tokens;
            let profile = tokens.profile.copy();
            tokens.wipe();
            match r {
                Err(error) => RenewTask::ClearBroken(error),
                Ok(renewed) => RenewTask::Save { tokens: renewed.with_profile(profile) },
            }
        },
        (RenewTask::Save { tokens }, RenewEvent::Saved(r)) => {
            let mut tokens = tokens;
            match r {
                Err(error) => {
                    tokens.wipe();
                    RenewTask::ClearBroken(error)
                },
                Ok(_) => {
                    let access_token = tokens.access_token.clone();
                    tokens.wipe();
                    RenewTask::Ready { access_token }
                },
            }
        },
        (RenewTask::ClearExpired, RenewEvent::Cleared(r)) => match r {
            Err(error) => RenewTask::Failed(error),
            Ok(_) => RenewTask::Failed(AiPassError::ConnectionExpired),
        },
        (RenewTask::ClearBroken(error), RenewEvent::Cleared(_)) => RenewTask::Failed(error),
        (task, _) => task,
    }
}

/// The task that stands after some events.
pub open spec fn renew_run(task: RenewTask, events: Seq<RenewEvent>) -> RenewTask
    decreases events.len(),
{
    if events.len() == 0 {
        task
    } else {
        renew_next(renew_run(task, events.drop_last()), events.last())
    }
}

/// Once the service has granted new tokens the old ones are spent: renewing can then only fail by
/// way of clearing the connection.
pub proof fn spent_tokens_are_cleared(tokens: TokenBundle, events: Seq<RenewEvent>)
    requires
        renew_run(RenewTask::Read { tokens }, events) is Failed,
    ensures
        exists|i: int|
            0 <= i < events.len() && #[trigger] renew_run(
                RenewTask::Read { tokens },
                events.take(i),
            ) is ClearBroken,
    decreases events.len(),
{
    let start = RenewTask::Read { tokens };
    let before = events.drop_last();
    let n = before.len() as int;
    assert(events.take(n) =~= before);
    reading_goes_on(start, before);
    if renew_run(start, before) is Failed {
        spent_tokens_are_cleared(tokens, before);
        let i = choose|i: int|
            0 <= i < before.len() && #[trigger] renew_run(start, before.take(i)) is ClearBroken;
        assert(before.take(i) =~= events.take(i));
    } else {
        assert(renew_run(start, events.take(n)) is ClearBroken);
    }
}

proof fn reading_goes_on(start: RenewTask, events: Seq<RenewEvent>)
    requires
        start is Read,
    ensures
        ({
            let task = renew_run(start, events);
            task is Read || task is Save || task is ClearBroken || task is Ready || task is Failed
        }),
    decreases events.len(),
{
    if events.len() > 0 {
        reading_goes_on(start, events.drop_last());
    }
}

/// Until the service has granted new tokens or said that it does not know the connection, no
/// failure clears the connection.
pub proof fn unspent_tokens_are_kept(force: bool, events: Seq<RenewEvent>)
    requires
        forall|i: int|
            0 <= i < events.len() ==> (#[trigger] events[i] matches RenewEvent::Answered(
                Some(status),
            ) ==> !success(status) && !expired(status)),
    ensures
        !(renew_run(RenewTask::Load { force }, events) is ClearExpired),
        !(renew_run(RenewTask::Load { force }, events) is ClearBroken),
        !(renew_run(RenewTask::Load { force }, events) is Read),
        !(renew_run(RenewTask::Load { force }, events) is Save),
    decreases events.len(),
{
    if events.len() > 0 {
        let before = events.drop_last();
        assert forall|i: int| 0 <= i < before.len() implies (#[trigger] before[i] matches
            RenewEvent::Answered(Some(status)) ==> !success(status) && !expired(status)) by {
            assert(before[i] == events[i]);
        }
        unspent_tokens_are_kept(force, before);
        assert(events.last() == events[events.len() - 1]);
    }
}

/// A connection that the service no longer knows is cleared before the user is told to connect
/// again; nothing else follows.
pub proof fn expired_connection_is_cleared(
    client_id: String,
    tokens: TokenBundle,
    metadata: OAuthMetadata,
    status: u16,
    events: Seq<RenewEvent>,
)
    requires
        expired(status),
    ensures
        ({
            let start = renew_next(
                RenewTask::Request { client_id, tokens, metadata },
                RenewEvent::Answered(Some(status)),
            );
            &&& start is ClearExpired
            &&& renew_run(start, events) is ClearExpired || renew_run(start, events) is Failed
            &&& renew_run(start, events) == RenewTask::Failed(AiPassError::ConnectionExpired)
                ==> exists|i: int| 0 <= i < events.len() && #[trigger] events[i] is Cleared
        }),
    decreases events.len(),
{
    if events.len() > 0 {
        let before = events.drop_last();
        expired_connection_is_cleared(client_id, tokens, metadata, status, before);
        let start = RenewTask::ClearExpired;
        if renew_run(start, events) == RenewTask::Failed(AiPassError::ConnectionExpired) {
            if renew_run(start, before) is ClearExpired {
                assert(events[events.len() - 1] is Cleared);
            } else {
                let i = choose|i: int| 0 <= i < before.len() && #[trigger] before[i] is Cleared;
                assert(events[i] == before[i]);
            }
        }
    }
}

/// An access token that is still good is used as it is, unless a new one is asked for.
pub proof fn good_token_is_not_renewed(
    tokens: TokenBundle,
    now: u64,
    client_id: Option<String>,
)
    requires
        !renewal_due(tokens.expires_at_epoch_seconds, now, false),
    ensures
        renew_next(
            RenewTask::Load { force: false },
            RenewEvent::Loaded { tokens: Ok(Some(tokens)), now: Ok(now), client_id },
        ) == (RenewTask::Ready { access_token: tokens.access_token }),
        now + RENEWAL_MARGIN_SECONDS < tokens.expires_at_epoch_seconds,
{
}

/// The new tokens are saved for the user whom the old ones were for.
pub proof fn renewal_keeps_profile(tokens: TokenBundle, renewed: TokenBundle)
    ensures
        renew_next(RenewTask::Read { tokens }, RenewEvent::Renewed(Ok(renewed))) matches
            RenewTask::Save { tokens: saved } && saved.profile == tokens.profile
            && saved.access_token == renewed.access_token && saved.refresh_token
            == renewed.refresh_token && saved.scope == renewed.scope
            && saved.expires_at_epoch_seconds == renewed.expires_at_epoch_seconds,
{
}

/// What the keychain holds after an event: saving replaces the whole item at once, clearing deletes
/// it, and neither does anything where it fails.
pub open spec fn kept_next(
    kept: Option<TokenBundle>,
    task: RenewTask,
    event: RenewEvent,
) -> Option<TokenBundle> {
    match (task, event) {
        (RenewTask::Save { tokens }, RenewEvent::Saved(Ok(_))) => Some(tokens),
        (RenewTask::ClearExpired, RenewEvent::Cleared(Ok(_))) => None,
        (RenewTask::ClearBroken(_), RenewEvent::Cleared(Ok(_))) => None,
        _ => kept,
    }
}

/// What the keychain holds after some events of a renewal.
pub open spec fn kept_after(
    kept: Option<TokenBundle>,
    force: bool,
    events: Seq<RenewEvent>,
) -> Option<TokenBundle>
    decreases events.len(),
{
    if events.len() == 0 {
        kept
    } else {
        let before = events.drop_last();
        kept_next(
            kept_after(kept, force, before),
            renew_run(RenewTask::Load { force }, before),
            events.last(),
        )
    }
}

/// The number of times that the keychain is written to in the course of some events.
pub open spec fn writes_made(force: bool, events: Seq<RenewEvent>) -> nat
    decreases events.len(),
{
    if events.len() == 0 {
        0
    } else {
        let before = events.drop_last();
        writes_made(force, before) + if renew_run(RenewTask::Load { force }, before) is Save
            && events.last() is Saved {
            1nat
        } else {
            0nat
        }
    }
}

/// The event is what the task gives: what is loaded is what the keychain holds, and the new tokens
/// are read from the body of a reply, as `renewal_reply` reads it.
pub open spec fn comes_of(kept: Option<TokenBundle>, task: RenewTask, event: RenewEvent) -> bool {
    match (task, event) {
        (RenewTask::Load { .. }, RenewEvent::Loaded { tokens: Ok(stored), .. }) => stored == kept,
        (RenewTask::Read { tokens }, RenewEvent::Renewed(r)) => exists|
            body: Seq<u8>,
            now: Option<u64>,
        | clock_gave(now) && #[trigger] renews(tokens@, body, now, viewed(r)),
        _ => true,
    }
}

/// Every event is what the task that it came to gives.
pub open spec fn comes_about(
    kept: Option<TokenBundle>,
    force: bool,
    events: Seq<RenewEvent>,
) -> bool {
    forall|i: int|
        0 <= i < events.len() ==> comes_of(
            kept_after(kept, force, events.take(i)),
            renew_run(RenewTask::Load { force }, events.take(i)),
            #[trigger] events[i],
        )
}

/// The later tokens are those of a reply, with the earlier refresh token and scope where the reply
/// leaves them out, and with the earlier profile. They end the lifetime of the reply after a reading
/// of the clock.
pub open spec fn replaced_by(earlier: TokenView, later: TokenView) -> bool {
    exists|value: JsonView, now: Option<u64>|
        {
            &&& (#[trigger] token_outcome(
                value,
                Some(earlier.refresh_token),
                earlier.scope,
                now,
            )) matches Ok(fresh)
            &&& clock_gave(now)
            &&& later == (TokenView { profile: earlier.profile, ..fresh })
            &&& value.get("expires_in"@) matches Some(JsonView::Number(Some(seconds)))
            &&& now matches Some(reading)
            &&& later.expires_at_epoch_seconds == (if reading + seconds <= u64::MAX {
                reading + seconds
            } else {
                u64::MAX as int
            })
            &&& value.text_at("access_token"@) == Some(later.access_token)
            &&& later.refresh_token == match value.text_at("refresh_token"@) {
                Some(token) => token,
                None => earlier.refresh_token,
            }
            &&& later.scope == match value.text_at("scope"@) {
                Some(scope) => Some(scope),
                None => earlier.scope,
            }
        }
}

proof fn reply_replaces(earlier: TokenBundle, fresh: TokenBundle, body: Seq<u8>, now: Option<u64>)
    requires
        clock_gave(now),
        renews(earlier@, body, now, Ok(fresh@)),
    ensures
        replaced_by(earlier@, (TokenBundle { profile: earlier.profile, ..fresh })@),
{
    let value = json_document(body)->0;
    let outcome = token_outcome(value, Some(earlier@.refresh_token), earlier@.scope, now);
    assert(outcome == Ok::<TokenView, AiPassError>(fresh@));
}

/// What holds of the keychain while a renewal stands at the task.
spec fn standing(
    kept: Option<TokenBundle>,
    task: RenewTask,
    now_kept: Option<TokenBundle>,
    writes: nat,
) -> bool {
    match task {
        RenewTask::Load { .. } => now_kept == kept && writes == 0,
        RenewTask::Discover { tokens, .. } => kept == Some(tokens) && now_kept == kept && writes
            == 0,
        RenewTask::Request { tokens, .. } => kept == Some(tokens) && now_kept == kept && writes
            == 0,
        RenewTask::Read { tokens } => kept == Some(tokens) && now_kept == kept && writes == 0,
        RenewTask::Save { tokens } => {
            &&& kept matches Some(earlier)
            &&& now_kept == kept
            &&& writes == 0
            &&& tokens.profile == earlier.profile
            &&& replaced_by(earlier@, tokens@)
        },
        RenewTask::ClearExpired => now_kept == kept && writes == 0,
        RenewTask::ClearBroken(_) => now_kept == kept && writes <= 1,
        RenewTask::Ready { access_token } => {
            &&& kept matches Some(earlier)
            &&& now_kept matches Some(later)
            &&& later.access_token == access_token
            &&& later.profile == earlier.profile
            &&& writes == 0 && later == earlier || writes == 1 && replaced_by(earlier@, later@)
        },
        RenewTask::Failed(_) => (now_kept == kept || now_kept is None) && writes <= 1,
    }
}

proof fn standing_goes_on(
    kept: Option<TokenBundle>,
    task: RenewTask,
    now_kept: Option<TokenBundle>,
    writes: nat,
    event: RenewEvent,
)
    requires
        standing(kept, task, now_kept, writes),
        comes_of(now_kept, task, event),
    ensures
        standing(
            kept,
            renew_next(task, event),
            kept_next(now_kept, task, event),
            writes + if task is Save && event is Saved {
                1nat
            } else {
                0nat
            },
        ),
{
    if let RenewTask::Read { tokens } = task {
        if let RenewEvent::Renewed(Ok(fresh)) = event {
            let (body, now) = choose|body: Seq<u8>, now: Option<u64>|
                clock_gave(now) && #[trigger] renews(tokens@, body, now, viewed(Ok::<TokenBundle, AiPassError>(fresh)));
            reply_replaces(tokens, fresh, body, now);
        }
    }
}

proof fn standing_holds(kept: Option<TokenBundle>, force: bool, events: Seq<RenewEvent>)
    requires
        comes_about(kept, force, events),
    ensures
        standing(
            kept,
            renew_run(RenewTask::Load { force }, events),
            kept_after(kept, force, events),
            writes_made(force, events),
        ),
    decreases events.len(),
{
    if events.len() > 0 {
        let before = events.drop_last();
        let n = before.len() as int;
        let task = renew_run(RenewTask::Load { force }, before);
        assert(comes_about(kept, force, before)) by {
            assert forall|i: int| 0 <= i < before.len() implies comes_of(
                kept_after(kept, force, before.take(i)),
                renew_run(RenewTask::Load { force }, before.take(i)),
                #[trigger] before[i],
            ) by {
                assert(before[i] == events[i]);
                assert(before.take(i) =~= events.take(i));
            }
        }
        standing_holds(kept, force, before);
        assert(events.take(n) =~= before);
        assert(comes_of(kept_after(kept, force, before), task, events[n]));
        standing_goes_on(
            kept,
            task,
            kept_after(kept, force, before),
            writes_made(force, before),
            events[n],
        );
    }
}

/// An access token that is handed out is that of the tokens in the keychain, which are never
/// missing then, and the profile with them is still the earlier one. Either the keychain was not
/// written to, and holds what it held; or it was written to once, and everything was replaced
/// together: the new access token, and the refresh token and the scope of the reply, or the earlier
/// ones where the reply leaves them out.
pub proof fn handed_out_token_is_the_kept_one(
    kept: Option<TokenBundle>,
    force: bool,
    events: Seq<RenewEvent>,
)
    requires
        comes_about(kept, force, events),
    ensures
        renew_run(RenewTask::Load { force }, events) matches RenewTask::Ready { access_token } ==> {
            &&& kept matches Some(earlier)
            &&& kept_after(kept, force, events) matches Some(later)
            &&& later.access_token == access_token
            &&& later.profile == earlier.profile
            &&& {
                ||| writes_made(force, events) == 0 && later == earlier
                ||| writes_made(force, events) == 1 && replaced_by(earlier@, later@)
            }
        },
{
    standing_holds(kept, force, events);
}

/// A renewal that fails leaves in the keychain what it held, or nothing: never new tokens, and
/// never a part of them.
pub proof fn failed_renewal_keeps_all_or_nothing(
    kept: Option<TokenBundle>,
    force: bool,
    events: Seq<RenewEvent>,
)
    requires
        comes_about(kept, force, events),
    ensures
        renew_run(RenewTask::Load { force }, events) is Failed ==> kept_after(kept, force, events)
            == kept || kept_after(kept, force, events) is None,
{
    standing_holds(kept, force, events);
}

/// A renewal takes its course: tokens that end within a minute, or whose renewal is asked for, lead
/// to the service, whose grant leads to new tokens that are saved and then handed out.
pub proof fn renewal_takes_its_course(
    force: bool,
    tokens: TokenBundle,
    now: u64,
    client_id: String,
    metadata: OAuthMetadata,
    status: u16,
    renewed: TokenBundle,
)
    requires
        force || tokens.expires_at_epoch_seconds <= now + 60,
        200 <= status <= 299,
    ensures
        renew_next(
            RenewTask::Load { force },
            RenewEvent::Loaded {
                tokens: Ok(Some(tokens)),
                now: Ok(now),
                client_id: Some(client_id),
            },
        ) == (RenewTask::Discover { client_id, tokens }),
        renew_next(
            RenewTask::Discover { client_id, tokens },
            RenewEvent::Discovered(Ok(metadata)),
        ) == (RenewTask::Request { client_id, tokens, metadata }),
        renew_next(
            RenewTask::Request { client_id, tokens, metadata },
            RenewEvent::Answered(Some(status)),
        ) == (RenewTask::Read { tokens }),
        renew_next(RenewTask::Read { tokens }, RenewEvent::Renewed(Ok(renewed))) is Save,
        renew_next(RenewTask::Save { tokens: renewed }, RenewEvent::Saved(Ok(()))) == (
        RenewTask::Ready { access_token: renewed.access_token }),
{
}

/// A renewal fails where it cannot go on, with the failure as it came. Of the service's answers only
/// 400 and 401 clear the connection; every other refusal, and no answer, leaves it.
pub proof fn renewal_fails_as_it_came(
    force: bool,
    tokens: TokenBundle,
    now: Result<u64, AiPassError>,
    client: Option<String>,
    client_id: String,
    metadata: OAuthMetadata,
    status: u16,
    error: AiPassError,
)
    ensures
        renew_next(
            RenewTask::Load { force },
            RenewEvent::Loaded { tokens: Err(error), now, client_id: client },
        ) == RenewTask::Failed(error),
        renew_next(
            RenewTask::Load { force },
            RenewEvent::Loaded { tokens: Ok(None), now, client_id: client },
        ) == RenewTask::Failed(AiPassError::NotConnected),
        renew_next(
            RenewTask::Load { force },
            RenewEvent::Loaded { tokens: Ok(Some(tokens)), now: Err(error), client_id: client },
        ) == RenewTask::Failed(error),
        (now matches Ok(time) && (force || tokens.expires_at_epoch_seconds <= time + 60))
            ==> renew_next(
            RenewTask::Load { force },
            RenewEvent::Loaded { tokens: Ok(Some(tokens)), now, client_id: None },
        ) == RenewTask::Failed(AiPassError::NotConfigured),
        renew_next(RenewTask::Discover { client_id, tokens }, RenewEvent::Discovered(Err(error)))
            == RenewTask::Failed(error),
        renew_next(
            RenewTask::Request { client_id, tokens, metadata },
            RenewEvent::Answered(None),
        ) == RenewTask::Failed(AiPassError::RefreshFailed),
        status == 400 || status == 401 ==> renew_next(
            RenewTask::Request { client_id, tokens, metadata },
            RenewEvent::Answered(Some(status)),
        ) is ClearExpired,
        (status < 200 || status > 299) && status != 400 && status != 401 ==> renew_next(
            RenewTask::Request { client_id, tokens, metadata },
            RenewEvent::Answered(Some(status)),
        ) == RenewTask::Failed(AiPassError::RefreshFailed),
        renew_next(RenewTask::Read { tokens }, RenewEvent::Renewed(Err(error)))
            == RenewTask::ClearBroken(error),
        renew_next(RenewTask::Save { tokens }, RenewEvent::Saved(Err(error)))
            == RenewTask::ClearBroken(error),
        renew_next(RenewTask::ClearExpired, RenewEvent::Cleared(Ok(()))) == RenewTask::Failed(
            AiPassError::ConnectionExpired,
        ),
        renew_next(RenewTask::ClearExpired, RenewEvent::Cleared(Err(error))) == RenewTask::Failed(
            error,
        ),
{
}

/// A connection whose tokens are spent ends with the failure that spent them, whether or not it can
/// be cleared.
pub proof fn spent_connection_reports_its_failure(
    error: AiPassError,
    cleared: Result<(), AiPassError>,
)
    ensures
        renew_next(RenewTask::ClearBroken(error), RenewEvent::Cleared(cleared))
            == RenewTask::Failed(error),
{
}

} // verus!
