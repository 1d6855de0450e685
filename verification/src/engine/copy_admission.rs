//! How a conditional copy is made ready: the action has to compact, the source has to lie in the log,
//! the key has to be canonical, and then the version permit and a mailbox are had.
use crate::engine::common::{is_invalid_state, Action, CoordinatorState, Frontiers, Phase};
use crate::engine::conditional_copy::ConditionalCopy;
use crate::engine::io_hub::{CompletionHub, HubModel};
use crate::engine::metrics::{Metrics, MetricsModel};
use crate::types::{CheckpointVersion, Error, KeyHash, LogAddress, MaintenanceId, SessionId};
use vstd::prelude::*;

verus! {

/// The call that the admission waits for.
#[derive(Clone, Copy, Debug, PartialEq, Eq, Structural)]
pub enum CopyAdmissionCall {
    /// Look at the coordinator.
    State,
    /// Ask whether the engine failed or has to stop.
    Closed,
    /// Check that the source is an address.
    Check,
    Frontiers,
    /// Ask for the hash of the key, which has to be in its canonical form.
    Hash,
    /// Take the version permit of the key. It is dropped with a copy that is refused.
    Permit,
}

/// The reply to a call that did not fail.
#[derive(Debug)]
pub enum CopyAdmissionReply {
    Done,
    State(CoordinatorState),
    Flag(bool),
    Frontiers(Frontiers),
    Hash(KeyHash),
}

impl CopyAdmissionReply {
    /// Whether this is the kind of reply that `call` gets.
    pub open spec fn answers(self, call: CopyAdmissionCall) -> bool {
        match call {
            CopyAdmissionCall::State => self is State,
            CopyAdmissionCall::Closed => self is Flag,
            CopyAdmissionCall::Frontiers => self is Frontiers,
            CopyAdmissionCall::Hash => self is Hash,
            _ => self is Done,
        }
    }
}

/// How an admission goes on.
pub enum CopyAdmissionFlow {
    More(CopyAdmission),
    /// No copy is made. Where it is fatal, the engine has to close.
    Refused { error: Error, fatal: bool },
    Ready(ConditionalCopy),
}

/// A copy that is made ready.
pub struct CopyAdmission {
    pub owner: SessionId,
    pub action: MaintenanceId,
    pub source: LogAddress,
    pub key: Vec<u8>,
    pub call: CopyAdmissionCall,
    pub version: CheckpointVersion,
    pub hash: KeyHash,
}

/// Whether `action` is the one under way, and compacts.
pub open spec fn compacts(state: CoordinatorState, action: MaintenanceId) -> bool {
    &&& state.id == Some(action)
    &&& state.action == Some(Action::Compact)
    &&& state.phase == Phase::Compacting
}

impl CopyAdmission {
    /// What a reply makes of the admission, of the hub and of the metrics.
    pub open spec fn next(
        self,
        hub: HubModel,
        metrics: MetricsModel,
        reply: Result<CopyAdmissionReply, Error>,
        hub_after: HubModel,
        metrics_after: MetricsModel,
        r: CopyAdmissionFlow,
    ) -> bool {
        let same = hub_after == hub && metrics_after == metrics;
        let asks = |next: CopyAdmission| same && r == CopyAdmissionFlow::More(next);
        let refuses = |error: Error, fatal: bool|
            same && r == CopyAdmissionFlow::Refused { error, fatal };
        match reply {
            Err(error) => refuses(error, self.call is Hash && error is InvalidState),
            Ok(reply) => match self.call {
                CopyAdmissionCall::State => if compacts(reply->State_0, self.action) {
                    asks(
                        CopyAdmission {
                            call: CopyAdmissionCall::Closed,
                            version: reply->State_0.version,
                            ..self
                        },
                    )
                } else {
                    refuses(Error::InvalidState("条件复制需要有效的压缩动作"), false)
                },
                CopyAdmissionCall::Closed => if reply->Flag_0 {
                    refuses(Error::InvalidState("条件复制需要有效的压缩动作"), false)
                } else {
                    asks(CopyAdmission { call: CopyAdmissionCall::Check, ..self })
                },
                CopyAdmissionCall::Check => asks(
                    CopyAdmission { call: CopyAdmissionCall::Frontiers, ..self },
                ),
                CopyAdmissionCall::Frontiers => if self.source.0 < reply->Frontiers_0.begin.0 {
                    refuses(Error::RangeTruncated, false)
                } else if self.source.0 >= reply->Frontiers_0.tail.0 {
                    refuses(Error::InvalidFormat("压缩源超出日志范围"), false)
                } else {
                    asks(CopyAdmission { call: CopyAdmissionCall::Hash, ..self })
                },
                CopyAdmissionCall::Hash => asks(
                    CopyAdmission {
                        call: CopyAdmissionCall::Permit,
                        hash: reply->Hash_0,
                        ..self
                    },
                ),
                CopyAdmissionCall::Permit => ConditionalCopy::made(
                    hub,
                    metrics,
                    self.owner,
                    self.action,
                    self.version,
                    self.source,
                    self.key,
                    self.hash,
                    hub_after,
                    metrics_after,
                    match r {
                        CopyAdmissionFlow::Ready(copy) => Ok(copy),
                        CopyAdmissionFlow::Refused { error, .. } => Err(error),
                        CopyAdmissionFlow::More(_) => Err(Error::Busy),
                    },
                ) && !(r is More) && !(r matches CopyAdmissionFlow::Refused { fatal: true, .. }),
            },
        }
    }

    /// Starts to make a copy of `source` ready for the compaction `action`, whose mailbox belongs to
    /// `owner`.
    pub fn begin(owner: SessionId, action: MaintenanceId, source: LogAddress, key: Vec<u8>) -> (r:
        CopyAdmission)
        ensures
            r.owner == owner,
            r.action == action,
            r.source == source,
            r.key == key,
            r.call is State,
    {
        CopyAdmission {
            owner,
            action,
            source,
            key,
            call: CopyAdmissionCall::State,
            version: CheckpointVersion(0),
            hash: KeyHash(0),
        }
    }

    /// Takes the reply to the call of the admission.
    pub fn accept(
        self,
        hub: &mut CompletionHub,
        metrics: &mut Metrics,
        reply: Result<CopyAdmissionReply, Error>,
    ) -> (r: CopyAdmissionFlow)
        requires
            old(hub).wf(),
            old(metrics).wf(),
            old(metrics)@.active.len() < usize::MAX,
            reply matches Ok(reply) ==> reply.answers(self.call),
        ensures
            final(hub).wf(),
            final(metrics).wf(),
            self.next(old(hub)@, old(metrics)@, reply, final(hub)@, final(metrics)@, r),
    {
        let reply = match reply {
            Ok(reply) => reply,
            Err(error) => {
                let fatal = self.call == CopyAdmissionCall::Hash && is_invalid_state(&error);
                return CopyAdmissionFlow::Refused { error, fatal };
            },
        };
        match (self.call, reply) {
            (CopyAdmissionCall::State, CopyAdmissionReply::State(state)) => {
                if state.id != Some(self.action) || state.action != Some(Action::Compact)
                    || state.phase != Phase::Compacting {
                    return CopyAdmissionFlow::Refused {
                        error: Error::InvalidState("条件复制需要有效的压缩动作"),
                        fatal: false,
                    };
                }
                CopyAdmissionFlow::More(
                    CopyAdmission {
                        call: CopyAdmissionCall::Closed,
                        version: state.version,
                        ..self
                    },
                )
            },
            (CopyAdmissionCall::Closed, CopyAdmissionReply::Flag(false)) => CopyAdmissionFlow::More(
                CopyAdmission { call: CopyAdmissionCall::Check, ..self },
            ),
            (CopyAdmissionCall::Check, _) => CopyAdmissionFlow::More(
                CopyAdmission { call: CopyAdmissionCall::Frontiers, ..self },
            ),
            (CopyAdmissionCall::Frontiers, CopyAdmissionReply::Frontiers(frontiers)) => {
                if self.source.0 < frontiers.begin.0 {
                    return CopyAdmissionFlow::Refused {
                        error: Error::RangeTruncated,
                        fatal: false,
                    };
                }
                if self.source.0 >= frontiers.tail.0 {
                    return CopyAdmissionFlow::Refused {
                        error: Error::InvalidFormat("压缩源超出日志范围"),
                        fatal: false,
                    };
                }
                CopyAdmissionFlow::More(CopyAdmission { call: CopyAdmissionCall::Hash, ..self })
            },
            (CopyAdmissionCall::Hash, CopyAdmissionReply::Hash(hash)) => CopyAdmissionFlow::More(
                CopyAdmission { call: CopyAdmissionCall::Permit, hash, ..self },
            ),
            (CopyAdmissionCall::Permit, _) => {
                match ConditionalCopy::new(
                    hub,
                    metrics,
                    self.owner,
                    self.action,
                    self.version,
                    self.source,
                    self.key,
                    self.hash,
                ) {
                    Ok(copy) => CopyAdmissionFlow::Ready(copy),
                    Err(error) => CopyAdmissionFlow::Refused { error, fatal: false },
                }
            },
            _ => CopyAdmissionFlow::Refused {
                error: Error::InvalidState("条件复制需要有效的压缩动作"),
                fatal: false,
            },
        }
    }

    /// A call panicked: no copy is made, and the engine has to close.
    pub fn panicked(self) -> (r: CopyAdmissionFlow)
        ensures
            r == (CopyAdmissionFlow::Refused {
                error: Error::InvalidState("条件复制键准备恐慌"),
                fatal: true,
            }),
    {
        CopyAdmissionFlow::Refused {
            error: Error::InvalidState("条件复制键准备恐慌"),
            fatal: true,
        }
    }
}

/// A copy is made ready only by the last reply; until then, and where it is refused, neither the hub
/// nor the metrics change. What is ready copies the record that was asked for.
pub proof fn law_refused_leaves_nothing(
    admission: CopyAdmission,
    hub: HubModel,
    metrics: MetricsModel,
    reply: Result<CopyAdmissionReply, Error>,
    hub_after: HubModel,
    metrics_after: MetricsModel,
    r: CopyAdmissionFlow,
)
    requires
        admission.next(hub, metrics, reply, hub_after, metrics_after, r),
        reply matches Ok(reply) ==> reply.answers(admission.call),
    ensures
        !(r is Ready) ==> hub_after == hub && metrics_after == metrics,
        r matches CopyAdmissionFlow::Ready(copy) ==> {
            &&& admission.call is Permit
            &&& reply is Ok
            &&& copy.job.action == admission.action
            &&& copy.job.source == admission.source
            &&& copy.job.key == admission.key
            &&& copy.job.version == admission.version
        },
        r matches CopyAdmissionFlow::More(next) ==> {
            &&& next.owner == admission.owner
            &&& next.action == admission.action
            &&& next.source == admission.source
            &&& next.key == admission.key
        },
{
}

/// A copy is admitted only for the compaction that asks for it, while the engine is open, for a record
/// that lies in the log, in the version of the action; each check that fails refuses it with its error
/// and leaves nothing behind. Only a broken key closes the engine.
pub proof fn law_copy_is_checked(
    admission: CopyAdmission,
    hub: HubModel,
    metrics: MetricsModel,
    reply: CopyAdmissionReply,
    hub_after: HubModel,
    metrics_after: MetricsModel,
    r: CopyAdmissionFlow,
)
    requires
        admission.next(hub, metrics, Ok(reply), hub_after, metrics_after, r),
        reply.answers(admission.call),
        !(admission.call is Permit),
    ensures
        hub_after == hub,
        metrics_after == metrics,
        !(r is Ready),
        r matches CopyAdmissionFlow::Refused { fatal, .. } ==> !fatal,
        admission.call is State ==> {
            let state = reply->State_0;
            let right = state.id == Some(admission.action) && state.action == Some(Action::Compact)
                && state.phase == Phase::Compacting;
            &&& right <==> r is More
            &&& right ==> r->More_0 == (CopyAdmission {
                call: CopyAdmissionCall::Closed,
                version: state.version,
                ..admission
            })
            &&& !right ==> r->error == Error::InvalidState("条件复制需要有效的压缩动作")
        },
        admission.call is Closed ==> {
            &&& !reply->Flag_0 <==> r is More
            &&& r is More ==> r->More_0 == (CopyAdmission {
                call: CopyAdmissionCall::Check,
                ..admission
            })
        },
        admission.call is Check ==> r == CopyAdmissionFlow::More(
            CopyAdmission { call: CopyAdmissionCall::Frontiers, ..admission },
        ),
        admission.call is Frontiers ==> {
            let f = reply->Frontiers_0;
            let inside = f.begin.0 <= admission.source.0 && admission.source.0 < f.tail.0;
            &&& inside <==> r is More
            &&& inside ==> r->More_0 == (CopyAdmission { call: CopyAdmissionCall::Hash, ..admission })
            &&& admission.source.0 < f.begin.0 ==> r->error == Error::RangeTruncated
            &&& f.begin.0 <= admission.source.0 && admission.source.0 >= f.tail.0 ==> r->error
                == Error::InvalidFormat("压缩源超出日志范围")
        },
        admission.call is Hash ==> r == CopyAdmissionFlow::More(
            CopyAdmission { call: CopyAdmissionCall::Permit, hash: reply->Hash_0, ..admission },
        ),
{
}

/// A call that failed refuses the copy with its error; the engine closes exactly where the key broke
/// the state.
pub proof fn law_errors_are_kept(
    admission: CopyAdmission,
    hub: HubModel,
    metrics: MetricsModel,
    error: Error,
    hub_after: HubModel,
    metrics_after: MetricsModel,
    r: CopyAdmissionFlow,
)
    requires
        admission.next(hub, metrics, Err(error), hub_after, metrics_after, r),
    ensures
        hub_after == hub,
        metrics_after == metrics,
        r == (CopyAdmissionFlow::Refused {
            error,
            fatal: admission.call is Hash && error is InvalidState,
        }),
{
}

} // verus!
