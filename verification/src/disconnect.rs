//! Disconnecting, and the status of a connection.
//!
//! A task says what is to be done next; `aipass_disconnect` takes a task and what came of it to
//! the next task.
use crate::error::AiPassError;
use crate::metadata::OAuthMetadata;
use crate::profile::ConnectionStatus;
use crate::tokens::TokenBundle;
use vstd::prelude::*;

verus! {

/// What is to be done next to disconnect.
pub enum DisconnectTask {
    /// Stop every chat. A chat that is left running while the credentials are waited for could
    /// finish renewing them and begin billable work.
    CancelChats,
    /// Wait until no one else connects or uses the credentials, and keep it so.
    Lock,
    /// Stop every chat that began meanwhile.
    CancelLateChats,
    /// Load the tokens.
    Load,
    /// Clear the connection on this device, as `clear_connection` has it.
    Clear { tokens: Option<TokenBundle>, client_id: Option<String> },
    /// Fetch the metadata of the service.
    Discover { tokens: TokenBundle, client_id: String, cleared: Result<(), AiPassError> },
    /// Give the refresh token back.
    RevokeRefresh {
        tokens: TokenBundle,
        client_id: String,
        metadata: OAuthMetadata,
        cleared: Result<(), AiPassError>,
    },
    /// Give the access token back.
    RevokeAccess {
        tokens: TokenBundle,
        client_id: String,
        metadata: OAuthMetadata,
        cleared: Result<(), AiPassError>,
    },
    /// Nothing: there is no connection any more.
    Disconnected,
    /// Nothing: the connection may still stand.
    Failed(AiPassError),
}

/// What came of a task of disconnecting.
pub enum DisconnectEvent {
    ChatsCancelled,
    Locked,
    /// The tokens, and the client of this build.
    Loaded { tokens: Result<Option<TokenBundle>, AiPassError>, client_id: Option<String> },
    Cleared(Result<(), AiPassError>),
    Discovered(Result<OAuthMetadata, AiPassError>),
    Revoked,
}

/// The end of disconnecting, by whether the connection on this device was cleared.
pub open spec fn disconnect_end(cleared: Result<(), AiPassError>) -> DisconnectTask {
    match cleared {
        Ok(_) => DisconnectTask::Disconnected,
        Err(error) => DisconnectTask::Failed(error),
    }
}

/// The task that follows. An event that does not belong to the task leaves it as it is.
pub open spec fn disconnect_next(task: DisconnectTask, event: DisconnectEvent) -> DisconnectTask {
    match (task, event) {
        (DisconnectTask::CancelChats, DisconnectEvent::ChatsCancelled) => DisconnectTask::Lock,
        (DisconnectTask::Lock, DisconnectEvent::Locked) => DisconnectTask::CancelLateChats,
        (DisconnectTask::CancelLateChats, DisconnectEvent::ChatsCancelled) => DisconnectTask::Load,
        (DisconnectTask::Load, DisconnectEvent::Loaded { tokens, client_id }) => match tokens {
            Err(error) => DisconnectTask::Failed(error),
            Ok(tokens) => DisconnectTask::Clear { tokens, client_id },
        },
        (
            DisconnectTask::Clear { tokens, client_id },
            DisconnectEvent::Cleared(cleared),
        ) => match (tokens, client_id) {
            (Some(tokens), Some(client_id)) => DisconnectTask::Discover {
                tokens,
                client_id,
                cleared,
            },
            _ => disconnect_end(cleared),
        },
        (
            DisconnectTask::Discover { tokens, client_id, cleared },
            DisconnectEvent::Discovered(r),
        ) => match r {
            Ok(metadata) => DisconnectTask::RevokeRefresh { tokens, client_id, metadata, cleared },
            Err(_) => disconnect_end(cleared),
        },
        (
            DisconnectTask::RevokeRefresh { tokens, client_id, metadata, cleared },
            DisconnectEvent::Revoked,
        ) => DisconnectTask::RevokeAccess { tokens, client_id, metadata, cleared },
        (DisconnectTask::RevokeAccess { cleared, .. }, DisconnectEvent::Revoked) => disconnect_end(
            cleared,
        ),
        _ => task,
    }
}

fn end_disconnect(cleared: Result<(), AiPassError>) -> (r: DisconnectTask)
    ensures
        r == disconnect_end(cleared),
{
    match cleared {
        Ok(_) => DisconnectTask::Disconnected,
        Err(error) => DisconnectTask::Failed(error),
    }
}

/// Takes what came of a task of disconnecting. Secrets are wiped when they have served.
pub fn aipass_disconnect(task: DisconnectTask, event: DisconnectEvent) -> (r: DisconnectTask)
    ensures
        r == disconnect_next(task, event),
{
    match (task, event) {
        (DisconnectTask::CancelChats, DisconnectEvent::ChatsCancelled) => DisconnectTask::Lock,
        (DisconnectTask::Lock, DisconnectEvent::Locked) => DisconnectTask::CancelLateChats,
        (DisconnectTask::CancelLateChats, DisconnectEvent::ChatsCancelled) => DisconnectTask::Load,
        (DisconnectTask::Load, DisconnectEvent::Loaded { tokens, client_id }) => match tokens {
            Err(error) => DisconnectTask::Failed(error),
            Ok(tokens) => DisconnectTask::Clear { tokens, client_id },
        },
        (
            DisconnectTask::Clear { tokens, client_id },
            DisconnectEvent::Cleared(cleared),
        ) => match (tokens, client_id) {
            (Some(tokens), Some(client_id)) => DisconnectTask::Discover {
                tokens,
                client_id,
                cleared,
            },
            (Some(tokens), None) => {
                let mut tokens = tokens;
                tokens.wipe();
                end_disconnect(cleared)
            },
            (None, _) => end_disconnect(cleared),
        },
        (
            DisconnectTask::Discover { tokens, client_id, cleared },
            DisconnectEvent::Discovered(r),
        ) => match r {
            Ok(metadata) => DisconnectTask::RevokeRefresh { tokens, client_id, metadata, cleared },
            Err(_) => {
                let mut tokens = tokens;
                tokens.wipe();
                end_disconnect(cleared)
            },
        },
        (
            DisconnectTask::RevokeRefresh { tokens, client_id, metadata, cleared },
            DisconnectEvent::Revoked,
        ) => DisconnectTask::RevokeAccess { tokens, client_id, metadata, cleared },
        (
            DisconnectTask::RevokeAccess { tokens, client_id: _, metadata: _, cleared },
            DisconnectEvent::Revoked,
        ) => {
            let mut tokens = tokens;
            tokens.wipe();
            end_disconnect(cleared)
        },
        (task, _) => task,
    }
}

/// The task that stands after some events.
pub open spec fn disconnect_run(
    task: DisconnectTask,
    events: Seq<DisconnectEvent>,
) -> DisconnectTask
    decreases events.len(),
{
    if events.len() == 0 {
        task
    } else {
        disconnect_next(disconnect_run(task, events.drop_last()), events.last())
    }
}

/// The event at `i` says that every chat was stopped, when that was to be done before the locks
/// are waited for.
pub open spec fn stopped_first_at(events: Seq<DisconnectEvent>, i: int) -> bool {
    &&& 0 <= i < events.len()
    &&& disconnect_run(DisconnectTask::CancelChats, events.take(i)) is CancelChats
    &&& events[i] is ChatsCancelled
}

/// The event at `i` says that the locks are held, when they were to be waited for.
pub open spec fn locked_at(events: Seq<DisconnectEvent>, i: int) -> bool {
    &&& 0 <= i < events.len()
    &&& disconnect_run(DisconnectTask::CancelChats, events.take(i)) is Lock
    &&& events[i] is Locked
}

/// The event at `i` says that every chat was stopped, when that was to be done with the locks
/// held.
pub open spec fn stopped_late_at(events: Seq<DisconnectEvent>, i: int) -> bool {
    &&& 0 <= i < events.len()
    &&& disconnect_run(DisconnectTask::CancelChats, events.take(i)) is CancelLateChats
    &&& events[i] is ChatsCancelled
}

/// The event at `i` says how clearing ended, when that was to be done.
pub open spec fn cleared_at(events: Seq<DisconnectEvent>, i: int) -> bool {
    &&& 0 <= i < events.len()
    &&& disconnect_run(DisconnectTask::CancelChats, events.take(i)) is Clear
    &&& events[i] is Cleared
}

proof fn places_stay(events: Seq<DisconnectEvent>, i: int)
    requires
        0 <= i < events.len() - 1,
    ensures
        stopped_first_at(events.drop_last(), i) == stopped_first_at(events, i),
        locked_at(events.drop_last(), i) == locked_at(events, i),
        stopped_late_at(events.drop_last(), i) == stopped_late_at(events, i),
        cleared_at(events.drop_last(), i) == cleared_at(events, i),
{
    assert(events.drop_last().take(i) =~= events.take(i));
}

/// Every chat is stopped before the locks are waited for; and whatever follows the locks, the
/// failure to load the tokens among it, comes only after every chat was stopped once more with the
/// locks held.
pub proof fn chats_are_stopped_before_and_after_locking(events: Seq<DisconnectEvent>)
    ensures
        ({
            let task = disconnect_run(DisconnectTask::CancelChats, events);
            &&& task is Lock ==> exists|i: int| stopped_first_at(events, i)
            &&& task is CancelLateChats ==> exists|i: int, j: int|
                i < j && #[trigger] stopped_first_at(events, i) && #[trigger] locked_at(events, j)
            &&& !(task is CancelChats || task is Lock || task is CancelLateChats) ==> exists|
                i: int,
                j: int,
                k: int,
            |
                i < j < k && #[trigger] stopped_first_at(events, i) && #[trigger] locked_at(
                    events,
                    j,
                ) && #[trigger] stopped_late_at(events, k)
        }),
    decreases events.len(),
{
    if events.len() > 0 {
        let before = events.drop_last();
        let n = before.len() as int;
        let earlier = disconnect_run(DisconnectTask::CancelChats, before);
        let task = disconnect_run(DisconnectTask::CancelChats, events);
        assert(events.take(n) =~= before);
        chats_are_stopped_before_and_after_locking(before);
        if earlier is CancelChats {
            if task is Lock {
                assert(stopped_first_at(events, n));
            }
        } else if earlier is Lock {
            let i = choose|i: int| stopped_first_at(before, i);
            places_stay(events, i);
            assert(stopped_first_at(events, i));
            if task is CancelLateChats {
                assert(locked_at(events, n));
            }
        } else if earlier is CancelLateChats {
            let (i, j) = choose|i: int, j: int|
                i < j && #[trigger] stopped_first_at(before, i) && #[trigger] locked_at(before, j);
            places_stay(events, i);
            places_stay(events, j);
            assert(stopped_first_at(events, i) && locked_at(events, j));
            if task is Load {
                assert(stopped_late_at(events, n));
            }
        } else {
            let (i, j, k) = choose|i: int, j: int, k: int|
                i < j < k && #[trigger] stopped_first_at(before, i) && #[trigger] locked_at(
                    before,
                    j,
                ) && #[trigger] stopped_late_at(before, k);
            places_stay(events, i);
            places_stay(events, j);
            places_stay(events, k);
            assert(stopped_first_at(events, i) && locked_at(events, j) && stopped_late_at(
                events,
                k,
            ));
        }
    }
}

/// Where the tokens cannot be loaded, disconnecting ends with that failure, whatever happens
/// afterwards: the connection is not cleared and the service is not asked for anything.
pub proof fn failed_load_ends_disconnecting(
    error: AiPassError,
    client_id: Option<String>,
    events: Seq<DisconnectEvent>,
)
    ensures
        disconnect_run(
            disconnect_next(
                DisconnectTask::Load,
                DisconnectEvent::Loaded { tokens: Err(error), client_id },
            ),
            events,
        ) == DisconnectTask::Failed(error),
    decreases events.len(),
{
    if events.len() > 0 {
        failed_load_ends_disconnecting(error, client_id, events.drop_last());
    }
}

/// The connection on this device has been cleared, or that has failed.
spec fn past_clearing(task: DisconnectTask) -> bool {
    task is Discover || task is RevokeRefresh || task is RevokeAccess || task is Disconnected
}

/// The service is asked for nothing before the connection on this device has been cleared.
pub proof fn local_authority_is_cleared_first(events: Seq<DisconnectEvent>)
    ensures
        ({
            let task = disconnect_run(DisconnectTask::CancelChats, events);
            task is Discover || task is RevokeRefresh || task is RevokeAccess || task
                is Disconnected
        }) ==> exists|i: int| cleared_at(events, i),
    decreases events.len(),
{
    let start = DisconnectTask::CancelChats;
    if past_clearing(disconnect_run(start, events)) {
        let before = events.drop_last();
        let n = before.len() as int;
        assert(events.take(n) =~= before);
        if past_clearing(disconnect_run(start, before)) {
            local_authority_is_cleared_first(before);
            let i = choose|i: int| cleared_at(before, i);
            places_stay(events, i);
            assert(cleared_at(events, i));
        } else {
            assert(cleared_at(events, n));
        }
    }
}

/// The outcome that the clearing left.
spec fn carried(task: DisconnectTask) -> Result<(), AiPassError> {
    match task {
        DisconnectTask::Discover { cleared, .. } => cleared,
        DisconnectTask::RevokeRefresh { cleared, .. } => cleared,
        DisconnectTask::RevokeAccess { cleared, .. } => cleared,
        DisconnectTask::Disconnected => Ok(()),
        DisconnectTask::Failed(error) => Err(error),
        _ => Ok(()),
    }
}

/// The service has no say in whether disconnecting succeeds: however it answers and whatever
/// cannot be reached, the end is that of clearing the connection on this device.
pub proof fn service_cannot_keep_a_connection(
    tokens: Option<TokenBundle>,
    client_id: Option<String>,
    cleared: Result<(), AiPassError>,
    events: Seq<DisconnectEvent>,
)
    ensures
        ({
            let start = disconnect_next(
                DisconnectTask::Clear { tokens, client_id },
                DisconnectEvent::Cleared(cleared),
            );
            let end = disconnect_run(start, events);
            &&& end is Disconnected ==> cleared is Ok
            &&& end matches DisconnectTask::Failed(error) ==> cleared == Err::<(), AiPassError>(
                error,
            )
        }),
{
    let start = disconnect_next(
        DisconnectTask::Clear { tokens, client_id },
        DisconnectEvent::Cleared(cleared),
    );
    outcome_is_carried(start, cleared, events);
}

proof fn outcome_is_carried(
    start: DisconnectTask,
    cleared: Result<(), AiPassError>,
    events: Seq<DisconnectEvent>,
)
    requires
        past_clearing(start) || start is Failed,
        carried(start) is Ok <==> cleared is Ok,
        carried(start) is Err ==> carried(start)->Err_0 == cleared->Err_0,
    ensures
        ({
            let task = disconnect_run(start, events);
            &&& past_clearing(task) || task is Failed
            &&& carried(task) is Ok <==> cleared is Ok
            &&& carried(task) is Err ==> carried(task)->Err_0 == cleared->Err_0
        }),
    decreases events.len(),
{
    if events.len() > 0 {
        outcome_is_carried(start, cleared, events.drop_last());
    }
}

/// The status that the user interface is told, given the tokens that are stored.
pub fn aipass_status(
    client: Option<&str>,
    stored: Result<Option<TokenBundle>, AiPassError>,
) -> (r: Result<ConnectionStatus, AiPassError>)
    ensures
        match (stored, r) {
            (Err(error), Err(same)) => same == error,
            (Ok(stored), Ok(status)) => {
                &&& status.configured == client is Some
                &&& status.connected == stored is Some
                &&& match stored {
                    Some(tokens) => status.display_name == tokens.profile.display_name
                        && status.email == tokens.profile.email,
                    None => status.display_name is None && status.email is None,
                }
            },
            _ => false,
        },
{
    match stored {
        Err(error) => Err(error),
        Ok(Some(tokens)) => {
            let mut tokens = tokens;
            let profile = tokens.profile.copy();
            tokens.wipe();
            Ok(ConnectionStatus::connected(client, profile))
        },
        Ok(None) => Ok(ConnectionStatus::disconnected(client)),
    }
}

/// Disconnecting takes its course: the device is cleared whether or not it holds tokens; tokens are
/// then given back, the refresh token first, wherever there are any, a client and the metadata of
/// the service; and the end is that of the clearing.
pub proof fn disconnecting_takes_its_course(
    tokens: TokenBundle,
    client_id: String,
    metadata: OAuthMetadata,
    stored: Option<TokenBundle>,
    client: Option<String>,
    cleared: Result<(), AiPassError>,
    error: AiPassError,
)
    ensures
        ({
            let end = match cleared {
                Ok(_) => DisconnectTask::Disconnected,
                Err(failure) => DisconnectTask::Failed(failure),
            };
            &&& disconnect_next(
                DisconnectTask::CancelChats,
                DisconnectEvent::ChatsCancelled,
            ) is Lock
            &&& disconnect_next(DisconnectTask::Lock, DisconnectEvent::Locked) is CancelLateChats
            &&& disconnect_next(
                DisconnectTask::CancelLateChats,
                DisconnectEvent::ChatsCancelled,
            ) is Load
            &&& disconnect_next(
                DisconnectTask::Load,
                DisconnectEvent::Loaded { tokens: Ok(stored), client_id: client },
            ) == (DisconnectTask::Clear { tokens: stored, client_id: client })
            &&& disconnect_next(
                DisconnectTask::Clear { tokens: Some(tokens), client_id: Some(client_id) },
                DisconnectEvent::Cleared(cleared),
            ) == (DisconnectTask::Discover { tokens, client_id, cleared })
            &&& stored is None || client is None ==> disconnect_next(
                DisconnectTask::Clear { tokens: stored, client_id: client },
                DisconnectEvent::Cleared(cleared),
            ) == end
            &&& disconnect_next(
                DisconnectTask::Discover { tokens, client_id, cleared },
                DisconnectEvent::Discovered(Ok(metadata)),
            ) == (DisconnectTask::RevokeRefresh { tokens, client_id, metadata, cleared })
            &&& disconnect_next(
                DisconnectTask::Discover { tokens, client_id, cleared },
                DisconnectEvent::Discovered(Err(error)),
            ) == end
            &&& disconnect_next(
                DisconnectTask::RevokeRefresh { tokens, client_id, metadata, cleared },
                DisconnectEvent::Revoked,
            ) == (DisconnectTask::RevokeAccess { tokens, client_id, metadata, cleared })
            &&& disconnect_next(
                DisconnectTask::RevokeAccess { tokens, client_id, metadata, cleared },
                DisconnectEvent::Revoked,
            ) == end
        }),
{
}

} // verus!
