//! Clearing a connection on this device.
//!
//! A task says what is to be done next; `clear_connection` takes a task and what came of it to the
//! next task.
use crate::error::AiPassError;
use crate::limits::KEYCHAIN_ITEM_NOT_FOUND;
use crate::profile::ConnectionStatus;
use crate::tokens::{cleared_item, KeychainReply};
use vstd::prelude::*;

verus! {

/// What is to be done next to clear a connection.
pub enum ClearTask {
    /// Stop every chat.
    Cancel,
    /// Delete the keychain item.
    Delete,
    /// Tell the user interface of this status.
    Announce(ConnectionStatus),
    /// Nothing: the connection is cleared.
    Done,
    /// Nothing: the item could not be deleted.
    Failed(AiPassError),
}

/// What came of a task of clearing.
pub enum ClearEvent {
    Cancelled,
    /// What the keychain answered, and the client of this build.
    Deleted { reply: KeychainReply<()>, client_id: Option<String> },
    Announced,
}

/// The keychain holds no item any more.
pub open spec fn deleted(reply: KeychainReply<()>) -> bool {
    match reply {
        KeychainReply::Done(_) => true,
        KeychainReply::Failed(code) => code == KEYCHAIN_ITEM_NOT_FOUND,
    }
}

/// The status without a connection.
pub open spec fn disconnected_status(configured: bool) -> ConnectionStatus {
    ConnectionStatus { configured, connected: false, display_name: None, email: None }
}

/// The task that follows. An event that does not belong to the task leaves it as it is.
pub open spec fn clear_next(task: ClearTask, event: ClearEvent) -> ClearTask {
    match (task, event) {
        (ClearTask::Cancel, ClearEvent::Cancelled) => ClearTask::Delete,
        (ClearTask::Delete, ClearEvent::Deleted { reply, client_id }) => if deleted(reply) {
            ClearTask::Announce(disconnected_status(client_id is Some))
        } else {
            ClearTask::Failed(AiPassError::KeychainNotCleared)
        },
        (ClearTask::Announce(_), ClearEvent::Announced) => ClearTask::Done,
        _ => task,
    }
}

/// Takes what came of a task of clearing.
pub fn clear_connection(task: ClearTask, event: ClearEvent) -> (r: ClearTask)
    ensures
        r == clear_next(task, event),
{
    match (task, event) {
        (ClearTask::Cancel, ClearEvent::Cancelled) => ClearTask::Delete,
        (ClearTask::Delete, ClearEvent::Deleted { reply, client_id }) => match cleared_item(reply) {
            Ok(_) => {
                let client = match &client_id {
                    Some(client_id) => Some(client_id.as_str()),
                    None => None,
                };
                ClearTask::Announce(ConnectionStatus::disconnected(client))
            },
            Err(error) => ClearTask::Failed(error),
        },
        (ClearTask::Announce(_), ClearEvent::Announced) => ClearTask::Done,
        (task, _) => task,
    }
}

/// The task that stands after some events.
pub open spec fn clear_run(task: ClearTask, events: Seq<ClearEvent>) -> ClearTask
    decreases events.len(),
{
    if events.len() == 0 {
        task
    } else {
        clear_next(clear_run(task, events.drop_last()), events.last())
    }
}

/// The event at `i` says that every chat was stopped, when that was to be done.
pub open spec fn stopped_at(events: Seq<ClearEvent>, i: int) -> bool {
    &&& 0 <= i < events.len()
    &&& clear_run(ClearTask::Cancel, events.take(i)) is Cancel
    &&& events[i] is Cancelled
}

/// The event at `i` says whether the item is gone, when it was to be deleted.
pub open spec fn deletion_at(events: Seq<ClearEvent>, i: int, gone: bool) -> bool {
    &&& 0 <= i < events.len()
    &&& clear_run(ClearTask::Cancel, events.take(i)) is Delete
    &&& events[i] matches ClearEvent::Deleted { reply, .. } && deleted(reply) == gone
}

/// The event at `i` says that the user interface was told, when that was to be done.
pub open spec fn announced_at(events: Seq<ClearEvent>, i: int) -> bool {
    &&& 0 <= i < events.len()
    &&& clear_run(ClearTask::Cancel, events.take(i)) is Announce
    &&& events[i] is Announced
}

proof fn places_stay(events: Seq<ClearEvent>, i: int)
    requires
        0 <= i < events.len() - 1,
    ensures
        stopped_at(events.drop_last(), i) == stopped_at(events, i),
        deletion_at(events.drop_last(), i, true) == deletion_at(events, i, true),
        deletion_at(events.drop_last(), i, false) == deletion_at(events, i, false),
        announced_at(events.drop_last(), i) == announced_at(events, i),
{
    assert(events.drop_last().take(i) =~= events.take(i));
}

/// The chats are stopped before the item is deleted: deleting is never due before that.
pub proof fn chats_are_stopped_before_deleting(events: Seq<ClearEvent>)
    ensures
        !(clear_run(ClearTask::Cancel, events) is Cancel) ==> exists|i: int| stopped_at(events, i),
    decreases events.len(),
{
    let task = clear_run(ClearTask::Cancel, events);
    if events.len() > 0 && !(task is Cancel) {
        let before = events.drop_last();
        let n = before.len() as int;
        assert(events.take(n) =~= before);
        if clear_run(ClearTask::Cancel, before) is Cancel {
            assert(stopped_at(events, n));
        } else {
            chats_are_stopped_before_deleting(before);
            let i = choose|i: int| stopped_at(before, i);
            places_stay(events, i);
            assert(stopped_at(events, i));
        }
    }
}

/// The user interface is told only where the item is gone, and told that there is no connection;
/// the connection counts as cleared only after that; and clearing fails only where the item could
/// not be deleted, with the user interface not told of anything.
pub proof fn only_deletion_is_announced(events: Seq<ClearEvent>)
    ensures
        ({
            let task = clear_run(ClearTask::Cancel, events);
            &&& task is Announce || task is Done ==> exists|i: int| deletion_at(events, i, true)
            &&& task matches ClearTask::Announce(status) ==> !status.connected
                && status.display_name is None && status.email is None
            &&& task is Done ==> exists|i: int| announced_at(events, i)
            &&& task matches ClearTask::Failed(error) ==> error == AiPassError::KeychainNotCleared
                && (exists|i: int| deletion_at(events, i, false)) && (forall|i: int|
                !announced_at(events, i))
            &&& task is Cancel || task is Delete || task is Announce ==> forall|i: int|
                !announced_at(events, i)
        }),
    decreases events.len(),
{
    if events.len() > 0 {
        let before = events.drop_last();
        let n = before.len() as int;
        let earlier = clear_run(ClearTask::Cancel, before);
        let task = clear_run(ClearTask::Cancel, events);
        assert(events.take(n) =~= before);
        only_deletion_is_announced(before);
        if earlier is Announce || earlier is Done {
            let i = choose|i: int| deletion_at(before, i, true);
            places_stay(events, i);
            assert(deletion_at(events, i, true));
        }
        if earlier is Done {
            let i = choose|i: int| announced_at(before, i);
            places_stay(events, i);
            assert(announced_at(events, i));
        }
        if earlier is Failed {
            let i = choose|i: int| deletion_at(before, i, false);
            places_stay(events, i);
            assert(deletion_at(events, i, false));
        }
        if earlier is Delete {
            if task is Announce {
                assert(deletion_at(events, n, true));
            }
            if task is Failed {
                assert(deletion_at(events, n, false));
            }
        }
        if earlier is Announce && task is Done {
            assert(announced_at(events, n));
        }
        if !(task is Done) {
            assert forall|i: int| !announced_at(events, i) by {
                if announced_at(events, i) {
                    if i < n {
                        places_stay(events, i);
                        assert(announced_at(before, i));
                    }
                }
            }
        }
    }
}

/// Clearing takes its course: an item that is deleted, or was not there, leads to the user interface
/// being told that there is no connection; any other answer of the keychain is a failure.
pub proof fn clearing_takes_its_course(code: i32, client_id: Option<String>)
    ensures
        ({
            let told = ClearTask::Announce(
                ConnectionStatus {
                    configured: client_id is Some,
                    connected: false,
                    display_name: None,
                    email: None,
                },
            );
            &&& clear_next(ClearTask::Cancel, ClearEvent::Cancelled) is Delete
            &&& clear_next(
                ClearTask::Delete,
                ClearEvent::Deleted { reply: KeychainReply::Done(()), client_id },
            ) == told
            &&& code == -25300 ==> clear_next(
                ClearTask::Delete,
                ClearEvent::Deleted { reply: KeychainReply::Failed(code), client_id },
            ) == told
            &&& code != -25300 ==> clear_next(
                ClearTask::Delete,
                ClearEvent::Deleted { reply: KeychainReply::Failed(code), client_id },
            ) == ClearTask::Failed(AiPassError::KeychainNotCleared)
            &&& clear_next(told, ClearEvent::Announced) is Done
        }),
{
}

} // verus!
