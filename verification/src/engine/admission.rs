//! What the engine decides before it accepts a request, and what it records when one ends.
use crate::allocation::{reserve, Memory};
use crate::engine::io_hub::{CompletionHub, HubModel};
use crate::engine::metrics::{Completed, Metrics, Monitor};
use crate::engine::pending::SessionRuntime;
use crate::types::{Effect, Error, OperationError, OperationResult, Outcome, RequestId, Serial};
use vstd::prelude::*;

verus! {

/// Why a session may not submit a request with this serial.
pub open spec fn serial_refusal(session: SessionRuntime, serial: Serial, failed: bool) -> Option<
    Error,
> {
    if session.closing || failed {
        Some(Error::InvalidState("Session closed or engine failed"))
    } else if session.current.last_accepted matches Some(last) && serial.0 <= last.0 {
        Some(Error::InvalidState("operation_serial_must_increase_strictly"))
    } else {
        None
    }
}

/// Checks that a session may submit a request with this serial, before its key is looked at.
pub fn prepare(session: &SessionRuntime, serial: Serial, failed: bool) -> (r: Result<(), Error>)
    ensures
        r == (match serial_refusal(*session, serial, failed) {
            Some(error) => Err::<(), Error>(error),
            None => Ok::<(), Error>(()),
        }),
{
    if session.closing || failed {
        return Err(Error::InvalidState("Session closed or engine failed"));
    }
    if let Some(last) = session.current.last_accepted {
        if serial.0 <= last.0 {
            return Err(Error::InvalidState("operation_serial_must_increase_strictly"));
        }
    }
    Ok(())
}

/// A buffer of `len` zeros, for the bytes of a key.
pub fn key_buffer(len: usize, memory: Memory) -> (r: Result<Vec<u8>, Error>)
    ensures
        r matches Ok(bytes) ==> bytes@ == Seq::new(len as nat, |i: int| 0u8),
        r matches Err(error) ==> error == Error::OutOfMemory,
        memory is Granted || len == 0 ==> r is Ok,
        memory is Refused && len > 0 ==> r is Err,
{
    let mut bytes: Vec<u8> = Vec::new();
    if !reserve(&mut bytes, len, memory) {
        return Err(Error::OutOfMemory);
    }
    let mut i: usize = 0;
    while i < len
        invariant
            i <= len,
            bytes@ =~= Seq::new(i as nat, |i: int| 0u8),
        decreases len - i,
    {
        bytes.push(0);
        i += 1;
    }
    Ok(bytes)
}

/// The serial is the last that the session had accepted.
pub open spec fn keeps_serial(
    session: SessionRuntime,
    serial: Serial,
    after: SessionRuntime,
) -> bool {
    &&& after.current.version == session.current.version
    &&& after.current.last_accepted == Some(serial)
    &&& after.current.tasks == session.current.tasks
    &&& after.same_but_current(session)
}

/// Accepts a serial. `accepted` is what the coordinator said of it, where the session is open.
pub fn accept_serial(
    session: &mut SessionRuntime,
    serial: Serial,
    failed: bool,
    accepted: Result<(), Error>,
) -> (r: Result<(), Error>)
    requires
        old(session).wf(),
    ensures
        final(session).wf(),
        if old(session).closing || failed {
            &&& r == Err::<(), Error>(Error::InvalidState("Session closed or engine failed"))
            &&& *final(session) == *old(session)
        } else {
            &&& accepted matches Err(error) ==> r == Err::<(), Error>(error) && *final(session)
                == *old(session)
            &&& accepted is Ok ==> r is Ok && keeps_serial(*old(session), serial, *final(session))
        },
{
    if session.closing || failed {
        return Err(Error::InvalidState("Session closed or engine failed"));
    }
    match accepted {
        Ok(()) => {
            session.current.last_accepted = Some(serial);
            Ok(())
        },
        Err(error) => Err(error),
    }
}

/// What a result becomes when the request was dropped: one that panicked hides it. The flag says
/// that the engine has to close.
pub fn finish_request<T>(dropped: bool, result: OperationResult<T>, effect: Effect) -> (r: (
    OperationResult<T>,
    bool,
))
    ensures
        dropped ==> r == (result, false),
        !dropped ==> r == (
            Err::<Outcome<T>, OperationError>(
                OperationError { cause: Error::InvalidState("Request destructor panic"), effect },
            ),
            true,
        ),
{
    if dropped {
        (result, false)
    } else {
        (
            Err(
                OperationError { cause: Error::InvalidState("Request destructor panic"), effect },
            ),
            true,
        )
    }
}

/// How many completions are recorded for a request: none is counted for one that is not sampled.
pub open spec fn recorded_io(monitor: Monitor, hub: HubModel, id: RequestId) -> Option<u64> {
    if !monitor.is_sampled() {
        Some(0)
    } else if hub.registered(id) {
        Some(hub.mailboxes[id.slot].completions)
    } else {
        None
    }
}

fn record_io(monitor: &Monitor, hub: &CompletionHub, id: RequestId) -> (r: Option<u64>)
    requires
        hub.wf(),
    ensures
        r == recorded_io(*monitor, hub@, id),
{
    if !monitor.sampled() {
        return Some(0);
    }
    match hub.completion_count(id) {
        Ok(count) => Some(count),
        Err(_) => None,
    }
}

/// Records the end of a request whose result is handed to its caller at once.
pub fn record_ready<T>(
    monitor: &mut Monitor,
    metrics: &mut Metrics,
    hub: &CompletionHub,
    id: RequestId,
    result: &OperationResult<T>,
)
    requires
        hub.wf(),
        old(metrics).wf(),
        old(monitor).known_to(old(metrics)@),
    ensures
        final(metrics).wf(),
        final(monitor).known_to(final(metrics)@),
        old(monitor).finished_as(*final(monitor)),
        old(monitor).finishes(
            old(metrics)@,
            Completed::of(*result),
            recorded_io(*old(monitor), hub@, id),
            final(metrics)@,
        ),
{
    let io = record_io(monitor, hub, id);
    monitor.finish(metrics, Completed::result(result), io);
}

/// Records the end of a request whose result went to a ticket. A result that could not be delivered
/// counts as failed with an unknown effect, and closes the engine: the flag says so.
pub fn complete_tracked(
    monitor: &mut Monitor,
    metrics: &mut Metrics,
    hub: &CompletionHub,
    id: RequestId,
    summary: Completed,
    delivered: bool,
) -> (r: bool)
    requires
        hub.wf(),
        old(metrics).wf(),
        old(monitor).known_to(old(metrics)@),
    ensures
        r == !delivered,
        final(metrics).wf(),
        final(monitor).known_to(final(metrics)@),
        old(monitor).finished_as(*final(monitor)),
        old(monitor).finishes(
            old(metrics)@,
            if delivered {
                summary
            } else {
                Completed::Failed(Effect::Unknown)
            },
            recorded_io(*old(monitor), hub@, id),
            final(metrics)@,
        ),
{
    let io = record_io(monitor, hub, id);
    if delivered {
        monitor.finish(metrics, summary, io);
        false
    } else {
        monitor.finish(metrics, Completed::Failed(Effect::Unknown), io);
        true
    }
}

/// A serial is taken exactly from an open session of an engine in order, and only if it is greater than
/// the last that was accepted.
pub proof fn law_serials_grow(session: SessionRuntime, serial: Serial, failed: bool)
    ensures
        serial_refusal(session, serial, failed) is None <==> {
            &&& !session.closing
            &&& !failed
            &&& session.current.last_accepted matches Some(last) ==> serial.0 > last.0
        },
        session.closing || failed ==> serial_refusal(session, serial, failed) == Some(
            Error::InvalidState("Session closed or engine failed"),
        ),
{
}

/// An accepted serial is the last one from then on, so that the same one is not taken again.
pub proof fn law_accepted_serial_is_the_last(
    session: SessionRuntime,
    serial: Serial,
    after: SessionRuntime,
    later: Serial,
)
    requires
        serial_refusal(session, serial, false) is None,
        keeps_serial(session, serial, after),
    ensures
        after.current.last_accepted == Some(serial),
        serial_refusal(after, serial, false) is Some,
        serial_refusal(after, later, false) is None <==> later.0 > serial.0,
        after.current.version == session.current.version,
        after.current.tasks == session.current.tasks,
        after.previous == session.previous,
        after.results == session.results,
        after.closing == session.closing,
{
}

/// The completions of a request that is not sampled are not looked for; those of a sampled one are what
/// its mailbox counted, if it is there.
pub proof fn law_completions_of_the_request(monitor: Monitor, hub: HubModel, id: RequestId)
    ensures
        !monitor.is_sampled() ==> recorded_io(monitor, hub, id) == Some(0u64),
        monitor.is_sampled() && hub.registered(id) ==> recorded_io(monitor, hub, id) == Some(
            hub.mailboxes[id.slot].completions,
        ),
        monitor.is_sampled() && !hub.registered(id) ==> recorded_io(monitor, hub, id) is None,
{
}

} // verus!
