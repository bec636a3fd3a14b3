//! Requests to the service: those that are made with an access token, and how replies are taken.
//!
//! A task says what is to be done next; `ask` takes a task and what came of it to the next task.
use crate::error::AiPassError;
use crate::limits::{
    MAX_METADATA_BYTES, MAX_MODELS_BYTES, MAX_TOKEN_BYTES, MAX_USERINFO_BYTES,
};
use crate::transfer::{is_success, success};
use vstd::prelude::*;

verus! {

/// What is to be done next to have a reply to a request that is made with an access token.
#[derive(Clone, Copy, Debug, PartialEq, Eq, Structural)]
pub enum AskTask {
    /// Make the request, with the access token at hand or with a renewed one.
    Request { renewed: bool },
    /// Clear the connection, which the service refuses with this status, as `clear_connection`
    /// has it.
    Clear { status: u16 },
    /// Nothing: go on with the reply, which has this status.
    Reply { status: u16 },
    /// Nothing: there is no reply.
    Failed(AiPassError),
}

/// What came of a task of asking.
pub enum AskEvent {
    /// The status of the reply, if there was one.
    Replied(Result<u16, AiPassError>),
    Cleared(Result<(), AiPassError>),
}

/// The status by which the service refuses an access token.
pub const UNAUTHORIZED: u16 = 401;

/// The task that follows. A refused access token is renewed once; a second refusal clears the
/// connection. An event that does not belong to the task leaves it as it is.
pub open spec fn ask_next(task: AskTask, event: AskEvent) -> AskTask {
    match (task, event) {
        (AskTask::Request { renewed }, AskEvent::Replied(r)) => match r {
            Err(error) => AskTask::Failed(error),
            Ok(status) => if status != UNAUTHORIZED {
                AskTask::Reply { status }
            } else if !renewed {
                AskTask::Request { renewed: true }
            } else {
                AskTask::Clear { status }
            },
        },
        (AskTask::Clear { status }, AskEvent::Cleared(r)) => match r {
            Err(error) => AskTask::Failed(error),
            Ok(_) => AskTask::Reply { status },
        },
        _ => task,
    }
}

/// Takes what came of a task of asking.
pub fn ask(task: AskTask, event: AskEvent) -> (r: AskTask)
    ensures
        r == ask_next(task, event),
{
    match (task, event) {
        (AskTask::Request { renewed }, AskEvent::Replied(r)) => match r {
            Err(error) => AskTask::Failed(error),
            Ok(status) => {
                if status != UNAUTHORIZED {
                    AskTask::Reply { status }
                } else if !renewed {
                    AskTask::Request { renewed: true }
                } else {
                    AskTask::Clear { status }
                }
            },
        },
        (AskTask::Clear { status }, AskEvent::Cleared(r)) => match r {
            Err(error) => AskTask::Failed(error),
            Ok(_) => AskTask::Reply { status },
        },
        (task, _) => task,
    }
}

/// The task that stands after some events.
pub open spec fn ask_run(task: AskTask, events: Seq<AskEvent>) -> AskTask
    decreases events.len(),
{
    if events.len() == 0 {
        task
    } else {
        ask_next(ask_run(task, events.drop_last()), events.last())
    }
}

/// The number of requests that are made in the course of some events.
pub open spec fn requests_made(task: AskTask, events: Seq<AskEvent>) -> nat
    decreases events.len(),
{
    if events.len() == 0 {
        0
    } else {
        let before = events.drop_last();
        requests_made(task, before) + if ask_run(task, before) is Request && events.last()
            is Replied {
            1nat
        } else {
            0nat
        }
    }
}

/// A request is made at most twice, whatever comes of it; and a reply that refuses the access token
/// is passed on only after the connection was cleared.
pub proof fn request_is_made_at_most_twice(events: Seq<AskEvent>)
    ensures
        ({
            let start = AskTask::Request { renewed: false };
            let task = ask_run(start, events);
            let made = requests_made(start, events);
            &&& made <= 2
            &&& task == (AskTask::Request { renewed: false }) ==> made == 0
            &&& task == (AskTask::Request { renewed: true }) ==> made == 1
            &&& task is Clear ==> made == 2
            &&& task == (AskTask::Reply { status: UNAUTHORIZED }) ==> made == 2 && exists|i: int|
                0 <= i < events.len() && (#[trigger] events[i] matches AskEvent::Cleared(Ok(_)))
        }),
    decreases events.len(),
{
    if events.len() > 0 {
        let start = AskTask::Request { renewed: false };
        let before = events.drop_last();
        request_is_made_at_most_twice(before);
        only_refusal_clears(before);
        if ask_run(start, events) == (AskTask::Reply { status: UNAUTHORIZED }) {
            if ask_run(start, before) is Clear {
                assert(events[events.len() - 1] matches AskEvent::Cleared(Ok(_)));
            } else {
                let i = choose|i: int|
                    0 <= i < before.len() && (#[trigger] before[i] matches AskEvent::Cleared(
                        Ok(_),
                    ));
                assert(events[i] == before[i]);
            }
        }
    }
}

/// What leads to clearing is a refused access token.
proof fn only_refusal_clears(events: Seq<AskEvent>)
    ensures
        ask_run(AskTask::Request { renewed: false }, events) matches AskTask::Clear { status } ==> status
            == UNAUTHORIZED,
    decreases events.len(),
{
    if events.len() > 0 {
        only_refusal_clears(events.drop_last());
    }
}

/// The requests of which the whole reply is read, or nothing.
#[derive(Clone, Copy, Debug, PartialEq, Eq, Structural)]
pub enum Call {
    Metadata,
    Exchange,
    Profile,
    Models,
}

/// What becomes of a request of which there is no reply.
pub open spec fn unanswered(call: Call) -> AiPassError {
    match call {
        Call::Metadata => AiPassError::MetadataUnavailable,
        Call::Exchange => AiPassError::ExchangeFailed,
        Call::Profile => AiPassError::ProfileUnavailable,
        Call::Models => AiPassError::ModelsFailed,
    }
}

/// What becomes of a request that is refused.
pub open spec fn refusal(call: Call) -> AiPassError {
    match call {
        Call::Metadata => AiPassError::MetadataUnavailable,
        Call::Exchange => AiPassError::ExchangeRejected,
        Call::Profile => AiPassError::ProfileRejected,
        Call::Models => AiPassError::ModelsRejected,
    }
}

/// The number of bytes that the body of a reply may have.
pub open spec fn body_limit(call: Call) -> usize {
    match call {
        Call::Metadata => MAX_METADATA_BYTES,
        Call::Exchange => MAX_TOKEN_BYTES,
        Call::Profile => MAX_USERINFO_BYTES,
        Call::Models => MAX_MODELS_BYTES,
    }
}

/// The seconds that the body of a reply may take.
pub open spec fn body_seconds(call: Call) -> u64 {
    match call {
        Call::Models => 15,
        _ => 10,
    }
}

/// How much of a reply is read, and for how long.
#[derive(Clone, Copy, Debug, PartialEq, Eq, Structural)]
pub struct BodyBounds {
    pub maximum: usize,
    pub seconds: u64,
}

impl Call {
    /// What becomes of this request if there is no reply.
    pub fn failure(self) -> (r: AiPassError)
        ensures
            r == unanswered(self),
    {
        match self {
            Call::Metadata => AiPassError::MetadataUnavailable,
            Call::Exchange => AiPassError::ExchangeFailed,
            Call::Profile => AiPassError::ProfileUnavailable,
            Call::Models => AiPassError::ModelsFailed,
        }
    }

    /// Judges the status of a reply: of a granted request the body is read, within these bounds; a
    /// refused one fails, whatever its body.
    pub fn judge(self, status: u16) -> (r: Result<BodyBounds, AiPassError>)
        ensures
            r == (if success(status) {
                Ok::<BodyBounds, AiPassError>(
                    BodyBounds { maximum: body_limit(self), seconds: body_seconds(self) },
                )
            } else {
                Err(refusal(self))
            }),
    {
        if is_success(status) {
            Ok(
                match self {
                    Call::Metadata => BodyBounds { maximum: MAX_METADATA_BYTES, seconds: 10 },
                    Call::Exchange => BodyBounds { maximum: MAX_TOKEN_BYTES, seconds: 10 },
                    Call::Profile => BodyBounds { maximum: MAX_USERINFO_BYTES, seconds: 10 },
                    Call::Models => BodyBounds { maximum: MAX_MODELS_BYTES, seconds: 15 },
                },
            )
        } else {
            Err(
                match self {
                    Call::Metadata => AiPassError::MetadataUnavailable,
                    Call::Exchange => AiPassError::ExchangeRejected,
                    Call::Profile => AiPassError::ProfileRejected,
                    Call::Models => AiPassError::ModelsRejected,
                },
            )
        }
    }
}

/// Of a reply every status but 401 is passed on at once, whether or not the access token was
/// renewed for it; 401 renews the token the first time and clears the connection the second time.
pub proof fn only_unauthorized_is_asked_again(
    renewed: bool,
    status: u16,
    error: AiPassError,
)
    ensures
        status != 401 ==> ask_next(AskTask::Request { renewed }, AskEvent::Replied(Ok(status))) == (
        AskTask::Reply { status }),
        ask_next(AskTask::Request { renewed: false }, AskEvent::Replied(Ok(401))) == (
        AskTask::Request { renewed: true }),
        ask_next(AskTask::Request { renewed: true }, AskEvent::Replied(Ok(401))) == (
        AskTask::Clear { status: 401 }),
        ask_next(AskTask::Request { renewed }, AskEvent::Replied(Err(error))) == AskTask::Failed(
            error,
        ),
        ask_next(AskTask::Clear { status }, AskEvent::Cleared(Ok(()))) == (AskTask::Reply {
            status,
        }),
        ask_next(AskTask::Clear { status }, AskEvent::Cleared(Err(error))) == AskTask::Failed(
            error,
        ),
{
}

} // verus!
