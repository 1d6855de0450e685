//! How a delete is taken in: the session and its serial are checked, the key is encoded, its lock is
//! tried, and then a place for the result, a mailbox, the version permit and the serial are had, in
//! this order. What was had before a refusal is given back.
use crate::allocation::Memory;
use crate::engine::admission::{accept_serial, keeps_serial, key_buffer, prepare, serial_refusal};
use crate::engine::common::Gate;
use crate::engine::delete::{
    cancel_delete, cancels_delete, holds_place, reserve_delete, reserves_delete, DeleteReservation,
};
use crate::engine::io_hub::{given_back, CompletionHub, HubModel};
use crate::engine::pending::{held, SessionRuntime};
use crate::types::{Error, KeyHash, Serial};
use vstd::prelude::*;

verus! {

/// The call that the admission waits for.
#[derive(Clone, Copy, Debug, PartialEq, Eq, Structural)]
pub enum AdmissionCall {
    /// Let the session look at the action under way.
    Observe,
    /// Ask whether the engine failed.
    Health,
    /// Ask for the hash of the key and the number of its bytes.
    Measure,
    /// Write the bytes of the key over those of the admission.
    Encode,
    /// Try the lock of the key, and keep it until the first attempt is over.
    Gate,
    /// Take the version permit of the key. It is dropped with a delete that is refused.
    Permit,
    /// Ask once more whether the engine failed.
    Closing,
    /// Let the coordinator accept the serial.
    Serial,
}

/// The reply to a call that did not fail.
#[derive(Debug)]
pub enum AdmissionReply {
    Done,
    Flag(bool),
    Measured { hash: KeyHash, len: usize },
    Gate(Gate),
}

impl AdmissionReply {
    /// Whether this is the kind of reply that `call` gets.
    pub open spec fn answers(self, call: AdmissionCall) -> bool {
        match call {
            AdmissionCall::Health | AdmissionCall::Closing => self is Flag,
            AdmissionCall::Measure => self is Measured,
            AdmissionCall::Gate => self is Gate,
            _ => self is Done,
        }
    }
}

/// What a delete that was taken in has.
pub struct Accepted {
    pub hash: KeyHash,
    pub key: Vec<u8>,
    pub reservation: DeleteReservation,
}

/// How an admission goes on.
pub enum AdmissionFlow {
    More(DeleteAdmission),
    Refused(Error),
    Accepted(Accepted),
}

/// A delete that is being taken in.
pub struct DeleteAdmission {
    pub serial: Serial,
    pub max_pending: usize,
    pub max_results: usize,
    pub call: AdmissionCall,
    pub hash: KeyHash,
    pub key: Vec<u8>,
    pub reservation: Option<DeleteReservation>,
}

impl DeleteAdmission {
    /// Something is reserved exactly between the lock of the key and the serial.
    pub open spec fn wf(self) -> bool {
        self.reservation is Some <==> (self.call is Permit || self.call is Closing
            || self.call is Serial)
    }

    /// The session holds the place that is reserved, and is open where the serial is asked for.
    pub open spec fn fits(self, session: SessionRuntime) -> bool {
        &&& self.reservation matches Some(reservation) ==> holds_place(session, reservation)
        &&& self.call is Serial ==> !session.closing
    }

    /// The delete is refused: what was reserved is given back, and nothing else changes.
    pub open spec fn refused(
        self,
        session: SessionRuntime,
        hub: HubModel,
        error: Error,
        after: SessionRuntime,
        hub_after: HubModel,
        r: AdmissionFlow,
    ) -> bool {
        &&& r == AdmissionFlow::Refused(error)
        &&& match self.reservation {
            Some(reservation) => cancels_delete(session, hub, reservation, after, hub_after),
            None => after == session && hub_after == hub,
        }
    }

    /// What a reply makes of the admission, of the session and of the hub.
    pub open spec fn next(
        self,
        session: SessionRuntime,
        hub: HubModel,
        reply: Result<AdmissionReply, Error>,
        memory: Memory,
        after: SessionRuntime,
        hub_after: HubModel,
        r: AdmissionFlow,
    ) -> bool {
        let same = after == session && hub_after == hub;
        let asks = |call: AdmissionCall|
            same && r == AdmissionFlow::More(DeleteAdmission { call, ..self });
        let refuses = |error: Error| self.refused(session, hub, error, after, hub_after, r);
        match reply {
            Err(error) => refuses(error),
            Ok(reply) => match self.call {
                AdmissionCall::Observe => asks(AdmissionCall::Health),
                AdmissionCall::Health => match serial_refusal(
                    session,
                    self.serial,
                    reply->Flag_0,
                ) {
                    Some(error) => refuses(error),
                    None => asks(AdmissionCall::Measure),
                },
                AdmissionCall::Measure => {
                    ||| {
                        &&& !(memory is Refused && reply->len > 0)
                        &&& same
                        &&& r matches AdmissionFlow::More(next)
                        &&& next.key@ == Seq::new(reply->len as nat, |i: int| 0u8)
                        &&& next == DeleteAdmission {
                            call: AdmissionCall::Encode,
                            hash: reply->hash,
                            key: next.key,
                            ..self
                        }
                    }
                    ||| !(memory is Granted) && reply->len > 0 && refuses(Error::OutOfMemory)
                },
                AdmissionCall::Encode => asks(AdmissionCall::Gate),
                AdmissionCall::Gate => {
                    let reserves = |result: Result<DeleteReservation, Error>|
                        reserves_delete(
                            session,
                            hub,
                            reply->Gate_0,
                            self.max_pending,
                            self.max_results,
                            memory,
                            after,
                            hub_after,
                            result,
                        );
                    match r {
                        AdmissionFlow::More(next) => {
                            &&& next.reservation matches Some(reservation)
                            &&& next == DeleteAdmission {
                                call: AdmissionCall::Permit,
                                reservation: Some(reservation),
                                ..self
                            }
                            &&& reserves(Ok(reservation))
                        },
                        AdmissionFlow::Refused(error) => reserves(Err(error)),
                        AdmissionFlow::Accepted(_) => false,
                    }
                },
                AdmissionCall::Permit => asks(AdmissionCall::Closing),
                AdmissionCall::Closing => if session.closing || reply->Flag_0 {
                    refuses(Error::InvalidState("Session closed or engine failed"))
                } else {
                    asks(AdmissionCall::Serial)
                },
                AdmissionCall::Serial => {
                    &&& keeps_serial(session, self.serial, after)
                    &&& hub_after == hub
                    &&& r == AdmissionFlow::Accepted(
                        Accepted {
                            hash: self.hash,
                            key: self.key,
                            reservation: self.reservation->0,
                        },
                    )
                },
            },
        }
    }

    /// Starts to take a delete in.
    pub fn begin(serial: Serial, max_pending: usize, max_results: usize) -> (r: DeleteAdmission)
        ensures
            r.wf(),
            r.serial == serial,
            r.max_pending == max_pending,
            r.max_results == max_results,
            r.call is Observe,
            r.reservation is None,
    {
        DeleteAdmission {
            serial,
            max_pending,
            max_results,
            call: AdmissionCall::Observe,
            hash: KeyHash(0),
            key: Vec::new(),
            reservation: None,
        }
    }

    /// Refuses the delete, and gives back what was reserved for it.
    fn refuse(self, session: &mut SessionRuntime, hub: &mut CompletionHub, error: Error) -> (r:
        AdmissionFlow)
        requires
            self.fits(*old(session)),
            old(session).wf(),
            old(hub).wf(),
        ensures
            final(session).wf(),
            final(hub).wf(),
            self.refused(*old(session), old(hub)@, error, *final(session), final(hub)@, r),
    {
        if let Some(reservation) = self.reservation {
            cancel_delete(session, hub, reservation);
        }
        AdmissionFlow::Refused(error)
    }

    /// Takes the reply to the call of the admission. `memory` decides whether there is room for the
    /// key and for a new place.
    pub fn accept(
        self,
        session: &mut SessionRuntime,
        hub: &mut CompletionHub,
        reply: Result<AdmissionReply, Error>,
        memory: Memory,
    ) -> (r: AdmissionFlow)
        requires
            self.wf(),
            self.fits(*old(session)),
            old(session).wf(),
            old(hub).wf(),
            old(session).suspended() <= usize::MAX,
            reply matches Ok(reply) ==> reply.answers(self.call),
        ensures
            final(session).wf(),
            final(hub).wf(),
            self.next(*old(session), old(hub)@, reply, memory, *final(session), final(hub)@, r),
            r matches AdmissionFlow::More(next) ==> next.wf() && next.fits(*final(session)),
    {
        let reply = match reply {
            Ok(reply) => reply,
            Err(error) => {
                return self.refuse(session, hub, error);
            },
        };
        match self.call {
            AdmissionCall::Observe => AdmissionFlow::More(
                DeleteAdmission { call: AdmissionCall::Health, ..self },
            ),
            AdmissionCall::Health => {
                let failed = match reply {
                    AdmissionReply::Flag(failed) => failed,
                    _ => true,
                };
                match prepare(session, self.serial, failed) {
                    Ok(()) => AdmissionFlow::More(
                        DeleteAdmission { call: AdmissionCall::Measure, ..self },
                    ),
                    Err(error) => self.refuse(session, hub, error),
                }
            },
            AdmissionCall::Measure => {
                let (hash, len) = match reply {
                    AdmissionReply::Measured { hash, len } => (hash, len),
                    _ => (KeyHash(0), 0),
                };
                match key_buffer(len, memory) {
                    Ok(key) => AdmissionFlow::More(
                        DeleteAdmission { call: AdmissionCall::Encode, hash, key, ..self },
                    ),
                    Err(error) => self.refuse(session, hub, error),
                }
            },
            AdmissionCall::Encode => AdmissionFlow::More(
                DeleteAdmission { call: AdmissionCall::Gate, ..self },
            ),
            AdmissionCall::Gate => {
                let gate = match reply {
                    AdmissionReply::Gate(gate) => gate,
                    _ => Gate::Held,
                };
                match reserve_delete(
                    session,
                    hub,
                    gate,
                    self.max_pending,
                    self.max_results,
                    memory,
                ) {
                    Ok(reservation) => AdmissionFlow::More(
                        DeleteAdmission {
                            call: AdmissionCall::Permit,
                            reservation: Some(reservation),
                            ..self
                        },
                    ),
                    Err(error) => AdmissionFlow::Refused(error),
                }
            },
            AdmissionCall::Permit => AdmissionFlow::More(
                DeleteAdmission { call: AdmissionCall::Closing, ..self },
            ),
            AdmissionCall::Closing => {
                let failed = match reply {
                    AdmissionReply::Flag(failed) => failed,
                    _ => true,
                };
                if session.closing || failed {
                    let error = Error::InvalidState("Session closed or engine failed");
                    return self.refuse(session, hub, error);
                }
                AdmissionFlow::More(DeleteAdmission { call: AdmissionCall::Serial, ..self })
            },
            AdmissionCall::Serial => {
                match accept_serial(session, self.serial, false, Ok(())) {
                    Ok(()) => {},
                    Err(error) => {
                        return self.refuse(session, hub, error);
                    },
                }
                match self.reservation {
                    Some(reservation) => AdmissionFlow::Accepted(
                        Accepted { hash: self.hash, key: self.key, reservation },
                    ),
                    None => AdmissionFlow::Refused(Error::Busy),
                }
            },
        }
    }

    /// The key or its encoder panicked: the delete is refused, and the engine has to close.
    pub fn panicked(self, session: &mut SessionRuntime, hub: &mut CompletionHub) -> (r: AdmissionFlow)
        requires
            self.fits(*old(session)),
            old(session).wf(),
            old(hub).wf(),
        ensures
            final(session).wf(),
            final(hub).wf(),
            self.refused(
                *old(session),
                old(hub)@,
                Error::InvalidState("request key or encoder panicked"),
                *final(session),
                final(hub)@,
                r,
            ),
    {
        self.refuse(session, hub, Error::InvalidState("request key or encoder panicked"))
    }
}

/// A delete that is refused leaves nothing behind, wherever it is refused: no place for a result and
/// no mailbox is held for it, and its serial is not kept. Only the last reply keeps a serial.
pub proof fn law_refused_leaves_nothing(
    admission: DeleteAdmission,
    session: SessionRuntime,
    hub: HubModel,
    reply: Result<AdmissionReply, Error>,
    memory: Memory,
    after: SessionRuntime,
    hub_after: HubModel,
    r: AdmissionFlow,
)
    requires
        admission.wf(),
        admission.fits(session),
        admission.next(session, hub, reply, memory, after, hub_after, r),
        reply matches Ok(reply) ==> reply.answers(admission.call),
    ensures
        !(r is Accepted) ==> after.current == session.current,
        r is Refused ==> {
            &&& held(after.results@) + (if admission.reservation is Some {
                1nat
            } else {
                0
            }) == held(session.results@)
            &&& hub_after == (match admission.reservation {
                Some(reservation) => given_back(hub, Some(reservation.id)),
                None => hub,
            })
        },
        r is Accepted ==> {
            &&& admission.call is Serial
            &&& reply is Ok
            &&& after.current.last_accepted == Some(admission.serial)
        },
{
    assert(session.results@.push(0).drop_last() =~= session.results@);
}

/// A deletion is admitted in order: the session observes the action, the engine is in order and the
/// serial grows, the key is measured and encoded, a place and a mailbox are reserved behind the lock of
/// the key, the version permits it, the session is still open, and the serial is accepted last. Until
/// then nothing but the reservation changes.
pub proof fn law_deletion_is_admitted_in_order(
    admission: DeleteAdmission,
    session: SessionRuntime,
    hub: HubModel,
    reply: AdmissionReply,
    memory: Memory,
    after: SessionRuntime,
    hub_after: HubModel,
    r: AdmissionFlow,
)
    requires
        admission.wf(),
        admission.next(session, hub, Ok(reply), memory, after, hub_after, r),
        reply.answers(admission.call),
    ensures
        admission.call is Observe ==> r == AdmissionFlow::More(
            DeleteAdmission { call: AdmissionCall::Health, ..admission },
        ),
        admission.call is Health ==> {
            let open = !session.closing && !reply->Flag_0;
            let grows = session.current.last_accepted matches Some(last) ==> admission.serial.0
                > last.0;
            &&& r is More <==> open && grows
            &&& r is More ==> r->More_0 == (DeleteAdmission {
                call: AdmissionCall::Measure,
                ..admission
            })
            &&& !open ==> r == AdmissionFlow::Refused(
                Error::InvalidState("Session closed or engine failed"),
            )
            &&& open && !grows ==> r == AdmissionFlow::Refused(
                Error::InvalidState("operation_serial_must_increase_strictly"),
            )
        },
        admission.call is Measure ==> {
            &&& memory is Granted || reply->len == 0 ==> r is More
            &&& memory is Refused && reply->len > 0 ==> r is Refused
            &&& r matches AdmissionFlow::More(next) ==> {
                &&& next.call is Encode
                &&& next.hash == reply->hash
                &&& next.key@.len() == reply->len
                &&& next.serial == admission.serial
                &&& next.reservation == admission.reservation
                &&& next.max_pending == admission.max_pending
                &&& next.max_results == admission.max_results
            }
            &&& r matches AdmissionFlow::Refused(error) ==> error == Error::OutOfMemory
        },
        admission.call is Encode ==> r == AdmissionFlow::More(
            DeleteAdmission { call: AdmissionCall::Gate, ..admission },
        ),
        admission.call is Gate ==> {
            &&& r matches AdmissionFlow::More(next) ==> next.call is Permit && next.reservation is Some
                && next.key == admission.key && next.hash == admission.hash && next.serial
                == admission.serial
            &&& !(r is Accepted)
        },
        admission.call is Permit ==> r == AdmissionFlow::More(
            DeleteAdmission { call: AdmissionCall::Closing, ..admission },
        ),
        admission.call is Closing ==> {
            &&& r is More <==> !session.closing && !reply->Flag_0
            &&& r is More ==> r->More_0 == (DeleteAdmission {
                call: AdmissionCall::Serial,
                ..admission
            })
            &&& r is Refused ==> r->Refused_0 == Error::InvalidState(
                "Session closed or engine failed",
            )
        },
        admission.call is Serial ==> {
            &&& r matches AdmissionFlow::Accepted(accepted)
            &&& accepted.hash == admission.hash
            &&& accepted.key == admission.key
            &&& accepted.reservation == admission.reservation->0
            &&& after.current.last_accepted == Some(admission.serial)
            &&& after.current.tasks == session.current.tasks
            &&& hub_after == hub
        },
        r is More && !(admission.call is Gate) ==> after == session && hub_after == hub,
{
}

/// A call that failed refuses the deletion with its error.
pub proof fn law_errors_are_kept(
    admission: DeleteAdmission,
    session: SessionRuntime,
    hub: HubModel,
    error: Error,
    memory: Memory,
    after: SessionRuntime,
    hub_after: HubModel,
    r: AdmissionFlow,
)
    requires
        admission.next(session, hub, Err(error), memory, after, hub_after, r),
    ensures
        r == AdmissionFlow::Refused(error),
{
}

} // verus!
