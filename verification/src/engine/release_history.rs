//! What a release asks of the device, over its whole course: what the catalogue said, which requests
//! were submitted, and which of them are done.
use crate::device::{IoOperation, IoOutcome};
use crate::engine::checkpoint_release::{
    CatalogMaterial, CatalogTarget, CheckpointFile, ReleaseCall, ReleaseJob, ReleaseReply,
    ReleaseStage,
};
use crate::types::{CheckpointRetirement, Error, IoErrorKind};
use vstd::prelude::*;

verus! {

/// A request that a release makes of the device, in the directory of its checkpoint.
pub enum ReleaseRequest {
    /// The commit record gets its other name.
    Rename,
    /// The directory is made durable.
    Sync,
    /// A material is removed.
    Remove(CatalogMaterial),
}

/// What happens to a release.
pub enum ReleaseEvent {
    /// The catalogue was read.
    Read(CatalogTarget),
    Submitted(ReleaseRequest),
    /// The request came back done. A material that was not there counts as removed.
    Done(ReleaseRequest),
}

/// The request of the stage. [`ReleaseJob::submits`] says which operation of the device it is.
pub open spec fn request_of(job: ReleaseJob) -> ReleaseRequest {
    match job.stage {
        ReleaseStage::Retire => ReleaseRequest::Rename,
        ReleaseStage::Delete => ReleaseRequest::Remove(
            job.catalog->0.materials@[job.material as int],
        ),
        _ => ReleaseRequest::Sync,
    }
}

/// What the reply to the call of a job adds to its history.
pub open spec fn told(
    h: Seq<ReleaseEvent>,
    job: ReleaseJob,
    reply: Result<ReleaseReply, Error>,
) -> Seq<ReleaseEvent> {
    match (job.call, reply) {
        (
            ReleaseCall::ReaderResult { .. },
            Ok(ReleaseReply::Catalog(Some(catalog))),
        ) => h.push(ReleaseEvent::Read(catalog)),
        (ReleaseCall::Submit, Ok(ReleaseReply::Submitted(_))) => h.push(
            ReleaseEvent::Submitted(request_of(job)),
        ),
        (ReleaseCall::Take, Ok(ReleaseReply::Completion(Some(c)))) => if !job.is_foreign(c) && (
        c.result matches Ok(IoOutcome::Done) || (job.stage is Delete && c.result == Err::<
            IoOutcome,
            Error,
        >(Error::Io(IoErrorKind::NotFound)))) {
            h.push(ReleaseEvent::Done(request_of(job)))
        } else {
            h
        },
        _ => h,
    }
}

/// The commit record has its other name: it was given it, or the catalogue showed it so.
pub open spec fn announced(h: Seq<ReleaseEvent>, k: int) -> bool {
    &&& 0 <= k < h.len()
    &&& h[k] == ReleaseEvent::Done(ReleaseRequest::Rename) || (h[k] matches ReleaseEvent::Read(c)
        && c.retired)
}

/// A synchronisation of the directory was submitted at `m`, after the record had its other name.
pub open spec fn syncs(h: Seq<ReleaseEvent>, k: int, m: int) -> bool {
    &&& announced(h, k)
    &&& k < m < h.len()
    &&& h[m] == ReleaseEvent::Submitted(ReleaseRequest::Sync)
}

/// That synchronisation came back done at `j`.
pub open spec fn durable(h: Seq<ReleaseEvent>, k: int, m: int, j: int) -> bool {
    &&& syncs(h, k, m)
    &&& m < j < h.len()
    &&& h[j] == ReleaseEvent::Done(ReleaseRequest::Sync)
}

/// The catalogue was read at `j`.
pub open spec fn reads(h: Seq<ReleaseEvent>, j: int) -> bool {
    0 <= j < h.len() && h[j] is Read
}

/// Whether the request that was submitted at `i` may be: no other checkpoint needs this one, and a
/// material is removed only where its own manifest lists it, and after the retirement is durable.
pub open spec fn justified(h: Seq<ReleaseEvent>, i: int) -> bool {
    match h[i] {
        ReleaseEvent::Submitted(request) => {
            &&& exists|j: int| #[trigger]
                reads(h, j) && j < i && h[j]->Read_0.blockers@.len() == 0 && (
                request matches ReleaseRequest::Remove(material)
                    ==> h[j]->Read_0.materials@.contains(material))
            &&& request is Remove ==> exists|k: int, m: int, j: int| #[trigger]
                durable(h, k, m, j) && j < i
        },
        _ => true,
    }
}

/// Whether `h` is what happened to a job.
pub open spec fn happened(job: ReleaseJob, h: Seq<ReleaseEvent>) -> bool {
    &&& forall|i: int| 0 <= i < h.len() ==> #[trigger] justified(h, i)
    &&& forall|i: int, j: int| #[trigger] reads(h, i) && #[trigger] reads(h, j) ==> i == j
    &&& job.stage is Lock || job.stage is Catalog ==> job.pending is None && forall|j: int|
        !#[trigger] reads(h, j)
    &&& job.is_metadata() ==> exists|j: int| #[trigger]
        reads(h, j) && h[j]->Read_0 == job.catalog->0
    &&& job.stage is RetirementSync ==> exists|k: int| #[trigger] announced(h, k)
    &&& job.stage is RetirementSync && job.pending is Some ==> exists|k: int, m: int| #[trigger]
        syncs(h, k, m)
    &&& job.retirement == CheckpointRetirement::Retired ==> exists|k: int, m: int, j: int| #[trigger]
        durable(h, k, m, j)
}

/// What a history shows, a longer one shows too.
proof fn lemma_longer(h: Seq<ReleaseEvent>, event: ReleaseEvent)
    ensures
        ({
            let more = h.push(event);
            &&& forall|k: int| announced(h, k) ==> #[trigger] announced(more, k)
            &&& forall|k: int, m: int| syncs(h, k, m) ==> #[trigger] syncs(more, k, m)
            &&& forall|k: int, m: int, j: int|
                durable(h, k, m, j) ==> #[trigger] durable(more, k, m, j)
            &&& forall|j: int| reads(h, j) ==> #[trigger] reads(more, j) && more[j] == h[j]
            &&& forall|i: int| 0 <= i < h.len() && justified(h, i) ==> #[trigger] justified(more, i)
        }),
{
    let more = h.push(event);
    assert forall|i: int| 0 <= i < h.len() && justified(h, i) implies #[trigger] justified(
        more,
        i,
    ) by {
        assert(more[i] == h[i]);
        if let ReleaseEvent::Submitted(request) = h[i] {
            let j = choose|j: int| #[trigger]
                reads(h, j) && j < i && h[j]->Read_0.blockers@.len() == 0 && (
                request matches ReleaseRequest::Remove(material)
                    ==> h[j]->Read_0.materials@.contains(material));
            assert(reads(more, j) && more[j] == h[j]);
            if request is Remove {
                let (k, m, j) = choose|k: int, m: int, j: int| #[trigger]
                    durable(h, k, m, j) && j < i;
                assert(durable(more, k, m, j));
            }
        }
    }
}

/// A release that starts has no history.
pub proof fn law_history_starts(job: ReleaseJob)
    requires
        job.stage is Lock,
        job.pending is None,
        job.retirement == CheckpointRetirement::NotAttempted,
    ensures
        happened(job, Seq::empty()),
{
}

/// A step that starts adds nothing.
proof fn lemma_begun(job: ReleaseJob, h: Seq<ReleaseEvent>)
    requires
        happened(job, h),
    ensures
        happened(job.begun().0, h),
{
}

proof fn lemma_read(job: ReleaseJob, h: Seq<ReleaseEvent>, catalog: CatalogTarget)
    requires
        happened(job, h),
        job.wf(),
        job.ordered(),
        job.call is ReaderResult,
    ensures
        happened(
            job.next(Ok(ReleaseReply::Catalog(Some(catalog)))).0,
            h.push(ReleaseEvent::Read(catalog)),
        ),
{
    let event = ReleaseEvent::Read(catalog);
    let more = h.push(event);
    lemma_longer(h, event);
    assert(reads(more, h.len() as int));
    assert forall|j: int| #[trigger] reads(more, j) implies j == h.len() by {
        if j < h.len() {
            assert(reads(h, j));
        }
    }
    if catalog.retired {
        assert(announced(more, h.len() as int));
    }
    assert(justified(more, h.len() as int));
}

proof fn lemma_submitted(job: ReleaseJob, h: Seq<ReleaseEvent>, reply: ReleaseReply)
    requires
        happened(job, h),
        job.wf(),
        job.ordered(),
        job.call is Submit,
        reply is Submitted,
    ensures
        happened(job.next(Ok(reply)).0, told(h, job, Ok(reply))),
{
    let event = ReleaseEvent::Submitted(request_of(job));
    let more = h.push(event);
    let at = h.len() as int;
    lemma_longer(h, event);
    let j = choose|j: int| #[trigger] reads(h, j) && h[j]->Read_0 == job.catalog->0;
    assert(reads(more, j));
    if job.stage is Delete {
        let materials = job.catalog->0.materials@;
        assert(materials.contains(materials[job.material as int]));
        let (k, m, j) = choose|k: int, m: int, j: int| #[trigger] durable(h, k, m, j);
        assert(durable(more, k, m, j) && j < at);
    }
    assert(justified(more, at));
    assert forall|i: int| #[trigger] reads(more, i) implies reads(h, i) by {}
    if job.stage is RetirementSync {
        let k = choose|k: int| #[trigger] announced(h, k);
        assert(announced(more, k));
        assert(syncs(more, k, at));
    }
    if job.retirement == CheckpointRetirement::Retired {
        let (k, m, j) = choose|k: int, m: int, j: int| #[trigger] durable(h, k, m, j);
        assert(durable(more, k, m, j));
    }
}

proof fn lemma_taken(job: ReleaseJob, h: Seq<ReleaseEvent>, reply: ReleaseReply)
    requires
        happened(job, h),
        job.wf(),
        job.ordered(),
        job.call is Take,
        reply is Completion,
    ensures
        happened(job.next(Ok(reply)).0, told(h, job, Ok(reply))),
{
    let more = told(h, job, Ok(reply));
    let after = job.next(Ok(reply)).0;
    let at = h.len() as int;
    let event = ReleaseEvent::Done(request_of(job));
    lemma_longer(h, event);
    if more != h {
        assert(more == h.push(event));
        assert(justified(more, at));
        assert forall|i: int| #[trigger] reads(more, i) implies reads(h, i) by {}
        let j = choose|j: int| #[trigger] reads(h, j) && h[j]->Read_0 == job.catalog->0;
        assert(reads(more, j));
        if job.stage is Retire {
            assert(announced(more, at));
        }
        if job.stage is RetirementSync {
            let k = choose|k: int| #[trigger] announced(h, k);
            assert(announced(more, k));
            let (k, m) = choose|k: int, m: int| #[trigger] syncs(h, k, m);
            assert(syncs(more, k, m));
            assert(durable(more, k, m, at));
        }
        if job.retirement == CheckpointRetirement::Retired {
            let (k, m, j) = choose|k: int, m: int, j: int| #[trigger] durable(h, k, m, j);
            assert(durable(more, k, m, j));
        }
    }
}

/// Every step and every reply keeps the history of a release: each request was justified when it was
/// submitted.
pub proof fn law_history_is_kept(
    job: ReleaseJob,
    h: Seq<ReleaseEvent>,
    reply: Result<ReleaseReply, Error>,
)
    requires
        happened(job, h),
        job.wf(),
        job.ordered(),
        reply matches Ok(reply) ==> reply.answers(job.call),
    ensures
        job.call is Idle ==> happened(job.begun().0, h),
        !(job.call is Idle) ==> happened(job.next(reply).0, told(h, job, reply)),
{
    if job.call is Idle {
        lemma_begun(job, h);
    } else if let Ok(answer) = reply {
        if job.call is ReaderResult {
            if let Some(catalog) = answer->Catalog_0 {
                lemma_read(job, h, catalog);
            }
        } else if job.call is Submit {
            lemma_submitted(job, h, answer);
        } else if job.call is Take {
            lemma_taken(job, h, answer);
        }
    }
}

/// Which operation of the device a request is.
pub proof fn law_requests_are_operations(job: ReleaseJob, operation: IoOperation)
    requires
        job.wf(),
        job.call is Submit,
        job.submits(operation),
    ensures
        match request_of(job) {
            ReleaseRequest::Rename => operation is Rename && job.file() == CheckpointFile::Commit,
            ReleaseRequest::Sync => operation is SyncDirectory && job.file()
                == CheckpointFile::Directory,
            ReleaseRequest::Remove(material) => operation is RemoveFile && job.file()
                == CheckpointFile::Material(material),
        },
{
}

/// What comes before the removal of a material, in every history of a release: the commit record had
/// its other name, then the directory was synchronised, and that came back done; the material is one
/// that the checkpoint's own manifest lists.
pub proof fn law_retired_before_removed(job: ReleaseJob, h: Seq<ReleaseEvent>, i: int)
    requires
        happened(job, h),
        0 <= i < h.len(),
        h[i] matches ReleaseEvent::Submitted(request) && request is Remove,
    ensures
        exists|k: int, m: int, j: int| #[trigger] durable(h, k, m, j) && j < i,
        exists|j: int| #[trigger]
            reads(h, j) && j < i && h[j]->Read_0.materials@.contains(
                h[i]->Submitted_0->Remove_0,
            ),
{
    assert(justified(h, i));
}

/// A checkpoint that others need is left alone: where the catalogue names a recovery set that needs
/// it, nothing is ever submitted.
pub proof fn law_needed_is_left_alone(job: ReleaseJob, h: Seq<ReleaseEvent>, j: int, i: int)
    requires
        happened(job, h),
        reads(h, j),
        h[j]->Read_0.blockers@.len() > 0,
        0 <= i < h.len(),
    ensures
        !(h[i] is Submitted),
{
    assert(justified(h, i));
}

} // verus!
