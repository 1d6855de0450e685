//! What the engine remembers of checkpoints between them, and how a new one starts.
use crate::device::DeviceCapabilities;
use crate::engine::checkpoint::{
    CheckpointJob, CheckpointModel, Manifest, ManifestModel, Material, Semantics,
};
use crate::engine::common::{
    checkpoint_capabilities, enter, entered, keeps_checkpoints, Action, Gate,
};
use crate::engine::io_hub::{give_back_error, given_back, CompletionHub, HubModel};
use crate::reports::CheckpointKind;
use crate::types::{
    CheckpointToken, CheckpointVersion, Error, LogAddress, MaintenanceId, RequestId, Serial,
    SessionId, StoreId,
};
use vstd::prelude::*;

verus! {

/// The checkpoint under way, and the last index that was committed: a checkpoint of the log alone
/// builds on it.
pub struct CheckpointRuntime {
    pub job: Option<CheckpointJob>,
    pub latest_index: Option<Manifest>,
}

impl CheckpointRuntime {
    pub fn new() -> (r: CheckpointRuntime)
        ensures
            r.job is None,
            r.latest_index is None,
    {
        CheckpointRuntime { job: None, latest_index: None }
    }

    /// The runtime of a store that was recovered from `index` and `log`. Says for which of the two
    /// it has to be recorded that it is committed: a checkpoint that is both is recorded once.
    pub fn recovered(index: Manifest, log: &Manifest) -> (r: (CheckpointRuntime, bool))
        ensures
            r.0.job is None,
            r.0.latest_index == Some(index),
            r.1 == (index.token != log.token),
    {
        let distinct = !index.token.same(&log.token);
        (CheckpointRuntime { job: None, latest_index: Some(index) }, distinct)
    }

    /// Forgets the checkpoint `token`. Returns whether its retention ends too: only when its release
    /// is confirmed.
    pub fn release_token(&mut self, token: CheckpointToken, confirmed: bool) -> (r: bool)
        ensures
            r == confirmed,
            final(self).job == old(self).job,
            final(self).latest_index == (match old(self).latest_index {
                Some(index) => if index.token == token {
                    None
                } else {
                    Some(index)
                },
                None => None,
            }),
    {
        let same = match &self.latest_index {
            Some(index) => index.token.same(&token),
            None => false,
        };
        if same {
            self.latest_index = None;
        }
        confirmed
    }

    /// Forgets an index that begins before `begin`: no checkpoint builds on what was truncated.
    pub fn invalidate_before(&mut self, begin: LogAddress)
        ensures
            final(self).job == old(self).job,
            final(self).latest_index == (match old(self).latest_index {
                Some(index) => if index.begin.0 < begin.0 {
                    None
                } else {
                    Some(index)
                },
                None => None,
            }),
            final(self).latest_index matches Some(index) ==> index.begin.0 >= begin.0,
    {
        let outdated = match &self.latest_index {
            Some(index) => index.begin.0 < begin.0,
            None => false,
        };
        if outdated {
            self.latest_index = None;
        }
    }

    /// Why a manifest of `kind` cannot be made.
    pub open spec fn base_refusal(self, kind: CheckpointKind, semantics: Semantics) -> Option<Error> {
        if kind != CheckpointKind::Log {
            None
        } else {
            match self.latest_index {
                None => Some(
                    Error::InvalidState(
                        "Log checkpoint requires successfully committed index checkpoint",
                    ),
                ),
                Some(base) => if base.semantics != semantics {
                    Some(Error::InvalidFormat("Checkpoint semantic description changes"))
                } else {
                    None
                },
            }
        }
    }

    /// What the manifest of a checkpoint says at its start.
    pub open spec fn planned(
        self,
        kind: CheckpointKind,
        store: StoreId,
        token: CheckpointToken,
        semantics: Semantics,
        version: CheckpointVersion,
    ) -> ManifestModel {
        let base = self.latest_index->0;
        let on_base = kind == CheckpointKind::Log;
        ManifestModel {
            store,
            token,
            kind,
            base_index: if on_base { base.token } else { token },
            semantics,
            version,
            begin: if on_base { base.begin } else { LogAddress(0) },
            end: LogAddress(0),
            replay_from: if on_base { base.replay_from } else { LogAddress(0) },
            sessions: Seq::<(SessionId, Serial)>::empty(),
            materials: Seq::<Material>::empty(),
        }
    }

    /// Why a checkpoint that was admitted cannot ask for its action.
    pub open spec fn start_refusal(
        self,
        hub: HubModel,
        kind: CheckpointKind,
        store: StoreId,
        semantics: Option<Semantics>,
    ) -> Option<Error> {
        match semantics {
            None => Some(Error::InvalidState("Checkpoint semantics describe panics")),
            Some(semantics) => match self.base_refusal(kind, semantics) {
                Some(reason) => Some(reason),
                None => hub.refusal(SessionId(store.0)),
            },
        }
    }

    /// The manifest of a checkpoint that starts. One of the log alone takes the range of the index
    /// on which it builds.
    pub fn new_manifest(
        &self,
        kind: CheckpointKind,
        store: StoreId,
        token: CheckpointToken,
        semantics: Semantics,
        version: CheckpointVersion,
    ) -> (r: Result<Manifest, Error>)
        ensures
            match self.base_refusal(kind, semantics) {
                Some(reason) => r == Err::<Manifest, Error>(reason),
                None => r matches Ok(manifest) && manifest@ == self.planned(
                    kind,
                    store,
                    token,
                    semantics,
                    version,
                ),
            },
    {
        let mut base_index = token;
        let mut begin = LogAddress(0);
        let mut replay_from = LogAddress(0);
        if kind == CheckpointKind::Log {
            match &self.latest_index {
                None => {
                    return Err(
                        Error::InvalidState(
                            "Log checkpoint requires successfully committed index checkpoint",
                        ),
                    );
                },
                Some(base) => {
                    if base.semantics != semantics {
                        return Err(Error::InvalidFormat("Checkpoint semantic description changes"));
                    }
                    base_index = base.token;
                    begin = base.begin;
                    replay_from = base.replay_from;
                },
            }
        }
        Ok(
            Manifest {
                store,
                token,
                kind,
                base_index,
                semantics,
                version,
                begin,
                end: LogAddress(0),
                replay_from,
                session_progress: Vec::new(),
                materials: Vec::new(),
            },
        )
    }

    /// Makes the manifest of a checkpoint that starts, and reserves its mailbox. `semantics` is what
    /// the schema says of itself, unless it failed to.
    pub fn reserve(
        &self,
        hub: &mut CompletionHub,
        kind: CheckpointKind,
        store: StoreId,
        token: CheckpointToken,
        semantics: Option<Semantics>,
        version: CheckpointVersion,
    ) -> (r: Result<(Manifest, RequestId), Error>)
        requires
            old(hub).wf(),
        ensures
            final(hub).wf(),
            match self.start_refusal(old(hub)@, kind, store, semantics) {
                Some(reason) => r == Err::<(Manifest, RequestId), Error>(reason) && final(hub)@
                    == old(hub)@,
                None => {
                    let id = old(hub)@.next_id(SessionId(store.0));
                    &&& r matches Ok((manifest, mailbox))
                    &&& mailbox == id
                    &&& manifest@ == self.planned(kind, store, token, semantics->0, version)
                    &&& final(hub)@ == old(hub)@.counted().with_mailbox(id, false)
                },
            },
    {
        let semantics = match semantics {
            Some(semantics) => semantics,
            None => {
                return Err(Error::InvalidState("Checkpoint semantics describe panics"));
            },
        };
        let manifest = match self.new_manifest(kind, store, token, semantics, version) {
            Ok(manifest) => manifest,
            Err(error) => {
                return Err(error);
            },
        };
        match hub.reserve(SessionId(store.0)) {
            Ok(mailbox) => Ok((manifest, mailbox)),
            Err(error) => Err(error),
        }
    }

    /// Takes the answer of the coordinator to the action that was asked for. The mailbox of a
    /// checkpoint that did not start is given back.
    pub fn start(
        &mut self,
        hub: &mut CompletionHub,
        started: Result<MaintenanceId, Error>,
        mailbox: RequestId,
        manifest: Manifest,
        chunk: u64,
        max_items: usize,
    ) -> (r: Result<MaintenanceId, Error>)
        requires
            old(self).job is None,
            old(hub).wf(),
            chunk > 0,
            max_items < usize::MAX,
            manifest@.materials.len() == 0,
        ensures
            final(hub).wf(),
            final(self).latest_index == old(self).latest_index,
            match started {
                Err(error) => {
                    &&& final(self).job is None
                    &&& final(hub)@ == given_back(old(hub)@, Some(mailbox))
                    &&& r == Err::<MaintenanceId, Error>(
                        match give_back_error(old(hub)@, Some(mailbox)) {
                            Some(lost) => lost,
                            None => error,
                        },
                    )
                },
                Ok(id) => {
                    &&& final(hub)@ == old(hub)@
                    &&& r == Ok::<MaintenanceId, Error>(id)
                    &&& final(self).job matches Some(job)
                    &&& job@.sound()
                    &&& job@ == CheckpointModel::starting(
                        id,
                        mailbox,
                        manifest@,
                        chunk,
                        max_items,
                    )
                },
            },
    {
        match started {
            Err(error) => match hub.release(mailbox) {
                Err(lost) => Err(lost),
                Ok(()) => Err(error),
            },
            Ok(id) => {
                self.job = Some(CheckpointJob::new(id, mailbox, manifest, chunk, max_items));
                Ok(id)
            },
        }
    }

    /// Whether a step is made.
    pub fn enter(&self, gate: Gate) -> (r: Result<bool, Error>)
        ensures
            r == entered(
                gate,
                "checkpoint_task_lock_poisoned",
                self.job matches Some(job) && !job.failed,
            ),
    {
        let due = match &self.job {
            Some(job) => !job.failed,
            None => false,
        };
        enter(gate, "checkpoint_task_lock_poisoned", due)
    }

    /// Ends a step that did not fail. Says whether it advanced, and whether the checkpoint is done:
    /// then its mailbox is given back, and its index, if it has one of its own, is the one on which
    /// the next checkpoint builds.
    pub fn leave(&mut self, hub: &mut CompletionHub, advanced: bool) -> (r: Result<
        (bool, bool),
        Error,
    >)
        requires
            old(self).job is Some,
            old(hub).wf(),
        ensures
            final(hub).wf(),
            !old(self).job->0.finished ==> {
                &&& r == Ok::<(bool, bool), Error>((advanced, false))
                &&& *final(self) == *old(self)
                &&& final(hub)@ == old(hub)@
            },
            old(self).job->0.finished ==> {
                let job = old(self).job->0;
                &&& final(hub)@ == given_back(old(hub)@, Some(job.mailbox))
                &&& match give_back_error(old(hub)@, Some(job.mailbox)) {
                    Some(lost) => r == Err::<(bool, bool), Error>(lost) && *final(self) == *old(
                        self,
                    ),
                    None => {
                        &&& r == Ok::<(bool, bool), Error>((advanced, true))
                        &&& final(self).job is None
                        &&& final(self).latest_index == (if job.manifest.kind
                            == CheckpointKind::Log {
                            old(self).latest_index
                        } else {
                            Some(job.manifest)
                        })
                    },
                }
            },
    {
        let mailbox = match &self.job {
            Some(job) if job.finished => job.mailbox,
            _ => {
                return Ok((advanced, false));
            },
        };
        match hub.release(mailbox) {
            Err(lost) => {
                return Err(lost);
            },
            Ok(()) => {},
        }
        if let Some(job) = self.job.take() {
            if job.manifest.kind != CheckpointKind::Log {
                self.latest_index = Some(job.manifest);
            }
        }
        Ok((advanced, true))
    }

    /// Ends a step that failed, after its error went to the ticket: the checkpoint is over, unless
    /// the ticket did not take the error.
    pub fn broken(&mut self, delivered: Result<(), Error>) -> (r: Error)
        requires
            old(self).job is Some,
        ensures
            final(self).latest_index == old(self).latest_index,
            match delivered {
                Err(error) => r == error && final(self).job == old(self).job,
                Ok(()) => r == Error::InvalidState("Checkpoint task failed,see_maintenance_report")
                    && final(self).job == Some(CheckpointJob { failed: true, ..old(self).job->0 }),
            },
    {
        match self.failed(delivered) {
            Err(error) => error,
            Ok(()) => Error::InvalidState("Checkpoint task failed,see_maintenance_report"),
        }
    }

    /// Whether the checkpoint has neither failed nor finished.
    pub open spec fn runs(self) -> bool {
        self.job matches Some(job) && !job.failed && !job.finished
    }

    fn is_running(&self) -> (r: bool)
        ensures
            r == self.runs(),
    {
        match &self.job {
            Some(job) => !job.failed && !job.finished,
            None => false,
        }
    }

    /// What goes to the ticket of a checkpoint whose engine failed, unless the checkpoint has ended.
    pub fn failure(&self, gate: Gate) -> (r: Result<Option<Error>, Error>)
        ensures
            r == (match gate {
                Gate::Held => Ok::<Option<Error>, Error>(None),
                Gate::Poisoned => Err::<Option<Error>, Error>(
                    Error::InvalidState("checkpoint_task_lock_poisoned"),
                ),
                Gate::Free => Ok::<Option<Error>, Error>(
                    if self.runs() {
                        Some(
                            Error::InvalidState(
                                "Engine or coordination action failed,Checkpoint terminated",
                            ),
                        )
                    } else {
                        None
                    },
                ),
            }),
    {
        match enter(gate, "checkpoint_task_lock_poisoned", self.is_running()) {
            Err(error) => Err(error),
            Ok(true) => Ok(
                Some(
                    Error::InvalidState(
                        "Engine or coordination action failed,Checkpoint terminated",
                    ),
                ),
            ),
            Ok(false) => Ok(None),
        }
    }

    /// The ticket took the failure, or did not: then the checkpoint has not ended.
    pub fn failed(&mut self, delivered: Result<(), Error>) -> (r: Result<(), Error>)
        requires
            old(self).job is Some,
        ensures
            final(self).latest_index == old(self).latest_index,
            match delivered {
                Err(error) => r == Err::<(), Error>(error) && final(self).job == old(self).job,
                Ok(()) => r is Ok && final(self).job == Some(
                    CheckpointJob { failed: true, ..old(self).job->0 },
                ),
            },
    {
        match delivered {
            Err(error) => Err(error),
            Ok(()) => {
                if let Some(job) = &mut self.job {
                    job.failed = true;
                }
                Ok(())
            },
        }
    }

    /// What goes to the ticket of a checkpoint whose device has stopped, unless the checkpoint has
    /// ended.
    pub fn stops(&self, poisoned: bool) -> (r: Result<Option<Error>, Error>)
        ensures
            r == (if poisoned {
                Err::<Option<Error>, Error>(Error::InvalidState("checkpoint_task_lock_poisoned"))
            } else if self.runs() {
                Ok::<Option<Error>, Error>(
                    Some(Error::InvalidState("Device shuts down,Checkpoint terminated")),
                )
            } else {
                Ok::<Option<Error>, Error>(None)
            }),
    {
        if poisoned {
            return Err(Error::InvalidState("checkpoint_task_lock_poisoned"));
        }
        if self.is_running() {
            Ok(Some(Error::InvalidState("Device shuts down,Checkpoint terminated")))
        } else {
            Ok(None)
        }
    }

    /// The device has stopped, and has given everything back: the job is dropped. Its mailbox is
    /// given back unless its ticket did not take the error.
    pub fn stop(&mut self, hub: &mut CompletionHub, delivered: Result<(), Error>) -> (r: Result<
        (),
        Error,
    >)
        requires
            old(hub).wf(),
        ensures
            final(hub).wf(),
            final(self).job is None,
            final(self).latest_index == old(self).latest_index,
            ({
                let mailbox = match old(self).job {
                    Some(job) => Some(job.mailbox),
                    None => None,
                };
                match delivered {
                    Err(error) => {
                        &&& final(hub)@ == old(hub)@
                        &&& r == Err::<(), Error>(error)
                    },
                    Ok(()) => {
                        &&& final(hub)@ == given_back(old(hub)@, mailbox)
                        &&& r == (match give_back_error(old(hub)@, mailbox) {
                            Some(lost) => Err::<(), Error>(lost),
                            None => Ok::<(), Error>(()),
                        })
                    },
                }
            }),
    {
        let job = self.job.take();
        match delivered {
            Err(error) => {
                return Err(error);
            },
            Ok(()) => {},
        }
        match job {
            Some(job) => hub.release(job.mailbox),
            None => Ok(()),
        }
    }
}

/// The action of a checkpoint.
pub fn checkpoint_action(kind: CheckpointKind) -> (r: Action)
    ensures
        r == (match kind {
            CheckpointKind::Full => Action::CheckpointFull,
            CheckpointKind::Index => Action::CheckpointIndex,
            CheckpointKind::Log => Action::CheckpointLog,
        }),
{
    match kind {
        CheckpointKind::Full => Action::CheckpointFull,
        CheckpointKind::Index => Action::CheckpointIndex,
        CheckpointKind::Log => Action::CheckpointLog,
    }
}

/// Whether a checkpoint may start, as far as the engine decides.
pub fn checkpoint_admission(
    gate: Gate,
    running: bool,
    failed: bool,
    shutdown_requested: bool,
    caps: &DeviceCapabilities,
) -> (r: Result<(), Error>)
    ensures
        r == (if gate == Gate::Held {
            Err::<(), Error>(Error::Busy)
        } else if gate == Gate::Poisoned {
            Err::<(), Error>(Error::InvalidState("checkpoint_task_lock_poisoned"))
        } else if running {
            Err::<(), Error>(Error::Busy)
        } else if failed || shutdown_requested {
            Err::<(), Error>(Error::InvalidState("Engine has failed or shut down"))
        } else if !keeps_checkpoints(*caps) {
            Err::<(), Error>(Error::UnsupportedDurability)
        } else {
            Ok::<(), Error>(())
        }),
{
    match gate {
        Gate::Held => {
            return Err(Error::Busy);
        },
        Gate::Poisoned => {
            return Err(Error::InvalidState("checkpoint_task_lock_poisoned"));
        },
        Gate::Free => {},
    }
    if running {
        return Err(Error::Busy);
    }
    if failed || shutdown_requested {
        return Err(Error::InvalidState("Engine has failed or shut down"));
    }
    checkpoint_capabilities(caps)
}

/// A checkpoint can be made of its own, with or without the log; one of the log alone needs a committed
/// index of the same semantics.
pub proof fn law_log_needs_an_index(
    runtime: CheckpointRuntime,
    kind: CheckpointKind,
    semantics: Semantics,
)
    ensures
        runtime.base_refusal(kind, semantics) is None <==> (kind == CheckpointKind::Log ==> {
            &&& runtime.latest_index is Some
            &&& runtime.latest_index->0.semantics == semantics
        }),
        kind == CheckpointKind::Log && runtime.latest_index is None ==> runtime.base_refusal(
            kind,
            semantics,
        ) == Some(
            Error::InvalidState("Log checkpoint requires successfully committed index checkpoint"),
        ),
        kind == CheckpointKind::Log && runtime.latest_index is Some
            && runtime.latest_index->0.semantics != semantics ==> runtime.base_refusal(kind, semantics)
            == Some(Error::InvalidFormat("Checkpoint semantic description changes")),
{
}

/// A manifest starts with what was asked for and nothing else: no session, no material and no end. One
/// of the log alone names the index it builds on and takes its range; every other one builds on itself.
pub proof fn law_manifest_starts_empty(
    runtime: CheckpointRuntime,
    kind: CheckpointKind,
    store: StoreId,
    token: CheckpointToken,
    semantics: Semantics,
    version: CheckpointVersion,
)
    ensures
        ({
            let m = runtime.planned(kind, store, token, semantics, version);
            let base = runtime.latest_index->0;
            &&& m.store == store
            &&& m.token == token
            &&& m.kind == kind
            &&& m.semantics == semantics
            &&& m.version == version
            &&& m.end.0 == 0
            &&& m.sessions.len() == 0
            &&& m.materials.len() == 0
            &&& kind == CheckpointKind::Log ==> m.base_index == base.token && m.begin == base.begin
                && m.replay_from == base.replay_from
            &&& kind != CheckpointKind::Log ==> m.base_index == token && m.begin.0 == 0
                && m.replay_from.0 == 0
        }),
{
}

/// A checkpoint asks for its action only if its schema described itself, a base that it needs is there
/// and the hub has a mailbox for it; the first of these that fails is the reason.
pub proof fn law_start_needs_all(
    runtime: CheckpointRuntime,
    hub: HubModel,
    kind: CheckpointKind,
    store: StoreId,
    semantics: Option<Semantics>,
)
    ensures
        ({
            let refusal = runtime.start_refusal(hub, kind, store, semantics);
            &&& semantics is None ==> refusal == Some(
                Error::InvalidState("Checkpoint semantics describe panics"),
            )
            &&& semantics is Some && runtime.base_refusal(kind, semantics->0) is Some ==> refusal
                == runtime.base_refusal(kind, semantics->0)
            &&& semantics is Some && runtime.base_refusal(kind, semantics->0) is None ==> refusal
                == hub.refusal(SessionId(store.0))
        }),
{
}

/// A checkpoint runs until it failed or finished.
pub proof fn law_runs_until_it_ends(runtime: CheckpointRuntime)
    ensures
        runtime.job is None ==> !runtime.runs(),
        runtime.job matches Some(job) ==> (runtime.runs() <==> !(job.failed || job.finished)),
{
}

/// A checkpoint is taken on exactly while no other is under way, by an engine that is open, on a device
/// that can keep one.
pub proof fn law_checkpoint_is_taken_on(
    gate: Gate,
    running: bool,
    failed: bool,
    shutdown_requested: bool,
    caps: DeviceCapabilities,
    r: Result<(), Error>,
)
    requires
        call_ensures(checkpoint_admission, (gate, running, failed, shutdown_requested, &caps), r),
    ensures
        r is Ok <==> {
            &&& gate == Gate::Free
            &&& !running
            &&& !failed
            &&& !shutdown_requested
            &&& keeps_checkpoints(caps)
        },
        r == Err::<(), Error>(Error::Busy) <==> gate == Gate::Held || (gate == Gate::Free && running),
        r == Err::<(), Error>(Error::UnsupportedDurability) ==> !keeps_checkpoints(caps),
{
}

/// The action of a checkpoint is that of its kind, and no two kinds share one.
pub proof fn law_kinds_have_their_actions(a: CheckpointKind, b: CheckpointKind, x: Action, y: Action)
    requires
        call_ensures(checkpoint_action, (a,), x),
        call_ensures(checkpoint_action, (b,), y),
    ensures
        x == y <==> a == b,
        x == Action::CheckpointFull <==> a == CheckpointKind::Full,
        x == Action::CheckpointIndex <==> a == CheckpointKind::Index,
        x == Action::CheckpointLog <==> a == CheckpointKind::Log,
{
}

/// The index on which the next checkpoint of the log builds is forgotten exactly when its own checkpoint
/// is released, or the log is truncated past its begin; the checkpoint under way is not touched.
pub proof fn law_index_is_forgotten(
    runtime: &mut CheckpointRuntime,
    token: CheckpointToken,
    confirmed: bool,
    ended: bool,
)
    requires
        call_ensures(CheckpointRuntime::release_token, (runtime, token, confirmed), ended),
    ensures
        ended == confirmed,
        final(runtime).job == old(runtime).job,
        old(runtime).latest_index is Some && old(runtime).latest_index->0.token == token
            ==> final(runtime).latest_index is None,
        !(old(runtime).latest_index is Some && old(runtime).latest_index->0.token == token)
            ==> final(runtime).latest_index == old(runtime).latest_index,
{
}

/// No checkpoint builds on an index that begins before the log does.
pub proof fn law_truncated_index_is_forgotten(runtime: &mut CheckpointRuntime, begin: LogAddress)
    requires
        call_ensures(CheckpointRuntime::invalidate_before, (runtime, begin), ()),
    ensures
        final(runtime).job == old(runtime).job,
        final(runtime).latest_index matches Some(index) ==> index.begin.0 >= begin.0
            && old(runtime).latest_index == Some(index),
        final(runtime).latest_index is None && old(runtime).latest_index is Some
            ==> old(runtime).latest_index->0.begin.0 < begin.0,
{
}

/// A checkpoint whose error went to its ticket has failed; one whose ticket did not take it has not.
pub proof fn law_failed_when_told(
    runtime: &mut CheckpointRuntime,
    delivered: Result<(), Error>,
    r: Result<(), Error>,
)
    requires
        old(runtime).job is Some,
        call_ensures(CheckpointRuntime::failed, (runtime, delivered), r),
    ensures
        r is Ok <==> delivered is Ok,
        delivered matches Err(error) ==> r == Err::<(), Error>(error),
        final(runtime).job is Some,
        delivered is Ok ==> final(runtime).job->0.failed,
        delivered is Err ==> final(runtime).job == old(runtime).job,
        final(runtime).latest_index == old(runtime).latest_index,
{
}

} // verus!
