//! Diagnostics and statistics. Counters say nothing about durability, and neither the span of the
//! log nor the occupancy of the index is a number of keys.
use crate::formatting::write_text;
use crate::reports::AutoCompactionStatus;
use crate::text::{decimal, flag, push_decimal, push_flag, push_text};
use crate::types::{Generation, LogAddress, SessionId};
use vstd::arithmetic::power2::{lemma2_to64, lemma2_to64_rest, lemma_pow2_strictly_increases, lemma_pow2_unfold, pow2};
use vstd::prelude::*;
use vstd::string::*;

verus! {

#[derive(Clone, Debug)]
pub struct IndexTableDiagnostics {
    pub generation: Generation,
    /// How many buckets hold so many entries. While the index grows, an entry may be in both tables.
    pub bucket_distribution: Vec<u64>,
}

#[derive(Clone, Debug)]
pub struct Diagnostics {
    pub log_span_bytes: u64,
    pub begin: LogAddress,
    pub tail: LogAddress,
    pub active_sessions: usize,
    pub active_session_ids: Vec<SessionId>,
    /// Accepted and not finished, with the callbacks that run at once.
    pub active_requests: usize,
    /// Suspended and not finished, without the results that are not collected.
    pub pending_requests: usize,
    pub cached_bytes: usize,
    pub cache_reserved_bytes: usize,
    pub log_allocated_bytes: usize,
    pub log_resident_pages: usize,
    pub auto_compaction_scheduled: bool,
    pub auto_compaction: AutoCompactionStatus,
    pub table_generation: Generation,
    pub bucket_distribution: Vec<u64>,
    pub growing_index: Option<IndexTableDiagnostics>,
    pub migrated_buckets: usize,
    pub retired_index_retained: bool,
    pub failed: bool,
    pub shutdown_requested: bool,
}

/// Counters of one kind of operation. Bin zero of `io_per_request` counts the requests without a
/// device completion, bin one those with one, and the following those with 2 to 3, 4 to 7 and so
/// on.
#[derive(Clone, Debug)]
pub struct OperationStatistics {
    pub accepted: u64,
    pub completed: u64,
    pub synchronous: u64,
    pub success: u64,
    pub not_found: u64,
    pub aborted: u64,
    pub failed: u64,
    pub failed_after_applied: u64,
    pub failed_with_unknown_effect: u64,
    pub io_completions: u64,
    pub record_invalidations: u64,
    pub pending_nanoseconds: u64,
    pub io_per_request: [u64; 65],
}

/// How many requests all the bins count.
pub open spec fn bins_total(bins: Seq<u64>) -> nat
    decreases bins.len(),
{
    if bins.len() == 0 {
        0
    } else {
        bins_total(bins.drop_last()) + bins.last() as nat
    }
}

pub proof fn lemma_bins_update(bins: Seq<u64>, at: int, count: u64)
    requires
        0 <= at < bins.len(),
    ensures
        bins_total(bins.update(at, count)) + bins[at] == bins_total(bins) + count,
    decreases bins.len(),
{
    if at == bins.len() - 1 {
        assert(bins.update(at, count).drop_last() =~= bins.drop_last());
    } else {
        lemma_bins_update(bins.drop_last(), at, count);
        assert(bins.update(at, count).drop_last() =~= bins.drop_last().update(at, count));
    }
}

pub proof fn lemma_bins_empty(bins: Seq<u64>)
    requires
        forall|i: int| 0 <= i < bins.len() ==> #[trigger] bins[i] == 0,
    ensures
        bins_total(bins) == 0,
    decreases bins.len(),
{
    if bins.len() > 0 {
        assert forall|i: int| 0 <= i < bins.len() - 1 implies #[trigger] bins.drop_last()[i]
            == 0 by {
            assert(bins[i] == 0);
        }
        lemma_bins_empty(bins.drop_last());
        assert(bins[bins.len() - 1] == 0);
    }
}

impl OperationStatistics {
    /// Whether the outcomes add up: each end has one, a failure has at most one effect, and none is
    /// counted among the synchronous ones or in a bin more than once.
    pub open spec fn outcomes_agree(self) -> bool {
        &&& self.completed == self.success + self.not_found + self.aborted + self.failed
        &&& self.failed_after_applied + self.failed_with_unknown_effect <= self.failed
        &&& self.synchronous <= self.completed
        &&& bins_total(self.io_per_request@) <= self.completed
    }

    /// Whether nothing was counted.
    pub open spec fn is_zero(self) -> bool {
        &&& self.accepted == 0
        &&& self.completed == 0
        &&& self.synchronous == 0
        &&& self.success == 0
        &&& self.not_found == 0
        &&& self.aborted == 0
        &&& self.failed == 0
        &&& self.failed_after_applied == 0
        &&& self.failed_with_unknown_effect == 0
        &&& self.io_completions == 0
        &&& self.record_invalidations == 0
        &&& self.pending_nanoseconds == 0
        &&& forall|i: int| 0 <= i < 65 ==> #[trigger] self.io_per_request@[i] == 0
    }

    /// The same counters again.
    pub fn copied(&self) -> (r: OperationStatistics)
        ensures
            r == *self,
    {
        OperationStatistics {
            accepted: self.accepted,
            completed: self.completed,
            synchronous: self.synchronous,
            success: self.success,
            not_found: self.not_found,
            aborted: self.aborted,
            failed: self.failed,
            failed_after_applied: self.failed_after_applied,
            failed_with_unknown_effect: self.failed_with_unknown_effect,
            io_completions: self.io_completions,
            record_invalidations: self.record_invalidations,
            pending_nanoseconds: self.pending_nanoseconds,
            io_per_request: self.io_per_request,
        }
    }
}

impl Default for OperationStatistics {
    fn default() -> (r: OperationStatistics)
        ensures
            r.is_zero(),
    {
        OperationStatistics {
            accepted: 0,
            completed: 0,
            synchronous: 0,
            success: 0,
            not_found: 0,
            aborted: 0,
            failed: 0,
            failed_after_applied: 0,
            failed_with_unknown_effect: 0,
            io_completions: 0,
            record_invalidations: 0,
            pending_nanoseconds: 0,
            io_per_request: [0; 65],
        }
    }
}

#[derive(Clone, Copy, Debug, PartialEq, Eq, Structural)]
pub struct CacheStatistics {
    pub lookups: u64,
    pub hits: u64,
    pub insertions: u64,
    pub evictions: u64,
    pub promotions: u64,
}

impl Default for CacheStatistics {
    fn default() -> (r: CacheStatistics)
        ensures
            r == (CacheStatistics {
                lookups: 0,
                hits: 0,
                insertions: 0,
                evictions: 0,
                promotions: 0,
            }),
    {
        CacheStatistics { lookups: 0, hits: 0, insertions: 0, evictions: 0, promotions: 0 }
    }
}

#[derive(Clone, Copy, Debug, PartialEq, Eq, Structural)]
pub struct IndexStatistics {
    pub lookups: u64,
    pub publication_attempts: u64,
    pub publication_conflicts: u64,
}

impl Default for IndexStatistics {
    fn default() -> (r: IndexStatistics)
        ensures
            r == (IndexStatistics {
                lookups: 0,
                publication_attempts: 0,
                publication_conflicts: 0,
            }),
    {
        IndexStatistics { lookups: 0, publication_attempts: 0, publication_conflicts: 0 }
    }
}

#[derive(Clone, Debug)]
pub struct Statistics {
    /// Whether new requests are sampled. A request that is sampled is counted to its end.
    pub enabled: bool,
    pub reads: OperationStatistics,
    pub upserts: OperationStatistics,
    pub rmw: OperationStatistics,
    pub deletes: OperationStatistics,
    /// Here success is a copy that was made, and not found is a source that was out of date.
    pub conditional_copies: OperationStatistics,
    pub cache: CacheStatistics,
    pub index: IndexStatistics,
    pub refresh_nanoseconds: u64,
    pub maintenance_nanoseconds: u64,
    pub saturated: bool,
    /// Whether the completions of every sampled request could be counted.
    pub measurements_complete: bool,
}

/// The smallest number of completions that bin `bin` counts.
pub open spec fn bin_low(bin: nat) -> nat {
    if bin == 0 {
        0
    } else {
        pow2((bin - 1) as nat)
    }
}

/// The largest number of completions that bin `bin` counts.
pub open spec fn bin_high(bin: nat) -> nat {
    if bin == 0 {
        0
    } else {
        (pow2(bin) - 1) as nat
    }
}

pub open spec fn bin_text(low: nat, high: nat, count: nat) -> Seq<char> {
    "  per request I/O completed ["@ + decimal(low) + ","@ + decimal(high) + "]:"@ + decimal(count)
        + "\n"@
}

fn bin_line(low: u64, high: u64, count: u64) -> (r: String)
    ensures
        r@ == bin_text(low as nat, high as nat, count as nat),
{
    let mut out = String::from_str("  per request I/O completed [");
    push_decimal(&mut out, low);
    push_text(&mut out, ",");
    push_decimal(&mut out, high);
    push_text(&mut out, "]:");
    push_decimal(&mut out, count);
    push_text(&mut out, "\n");
    out
}

/// One line for every bin below `bins` that counted something.
pub open spec fn bins_text(counts: Seq<u64>, bins: nat) -> Seq<char>
    decreases bins,
{
    if bins == 0 {
        Seq::empty()
    } else {
        let bin = (bins - 1) as nat;
        let before = bins_text(counts, bin);
        if counts[bin as int] == 0 {
            before
        } else {
            before + bin_text(bin_low(bin), bin_high(bin), counts[bin as int] as nat)
        }
    }
}

/// The lines of one kind of operation.
pub open spec fn operation_text(name: Seq<char>, s: OperationStatistics) -> Seq<char> {
    name + ":accept "@ + decimal(s.accepted as nat) + ",completed "@ + decimal(s.completed as nat)
        + ",sync "@ + decimal(s.synchronous as nat) + ",success "@ + decimal(s.success as nat)
        + ",missing/Outdated "@ + decimal(s.not_found as nat) + ",abort "@ + decimal(
        s.aborted as nat,
    ) + ",failure "@ + decimal(s.failed as nat) + "(Already effective "@ + decimal(
        s.failed_after_applied as nat,
    ) + ",Impact unknown "@ + decimal(s.failed_with_unknown_effect as nat) + "),I/O completed "@
        + decimal(s.io_completions as nat) + ",Record invalid "@ + decimal(
        s.record_invalidations as nat,
    ) + ",pending nanoseconds "@ + decimal(s.pending_nanoseconds as nat) + "\n"@ + bins_text(
        s.io_per_request@,
        65,
    )
}

fn push_bins(out: &mut String, counts: &[u64; 65])
    ensures
        final(out)@ == old(out)@ + bins_text(counts@, 65),
{
    let mut bin: usize = 0;
    let mut low: u64 = 0;
    assert(out@ =~= old(out)@ + bins_text(counts@, 0));
    while bin < 65
        invariant
            bin <= 65,
            bin < 65 ==> low == bin_low(bin as nat),
            out@ == old(out)@ + bins_text(counts@, bin as nat),
        decreases 65 - bin,
    {
        proof {
            lemma2_to64();
            lemma2_to64_rest();
            if bin > 0 {
                lemma_pow2_unfold(bin as nat);
                if bin < 64 {
                    lemma_pow2_strictly_increases((bin - 1) as nat, 63);
                }
            }
        }
        if counts[bin] != 0 {
            let high: u64 = if bin == 0 {
                0
            } else {
                low - 1 + low
            };
            let ghost before = out@;
            let line = bin_line(low, high, counts[bin]);
            push_text(out, line.as_str());
            assert(before + line@ =~= old(out)@ + (bins_text(counts@, bin as nat) + line@));
        }
        assert(out@ == old(out)@ + bins_text(counts@, (bin + 1) as nat));
        low = if bin == 0 {
            1
        } else if bin < 64 {
            low * 2
        } else {
            low
        };
        bin += 1;
    }
}

fn operation_lines(name: &str, s: &OperationStatistics) -> (r: String)
    ensures
        r@ == operation_text(name@, *s),
{
    let mut out = String::from_str(name);
    push_text(&mut out, ":accept ");
    push_decimal(&mut out, s.accepted);
    push_text(&mut out, ",completed ");
    push_decimal(&mut out, s.completed);
    push_text(&mut out, ",sync ");
    push_decimal(&mut out, s.synchronous);
    push_text(&mut out, ",success ");
    push_decimal(&mut out, s.success);
    push_text(&mut out, ",missing/Outdated ");
    push_decimal(&mut out, s.not_found);
    push_text(&mut out, ",abort ");
    push_decimal(&mut out, s.aborted);
    push_text(&mut out, ",failure ");
    push_decimal(&mut out, s.failed);
    push_text(&mut out, "(Already effective ");
    push_decimal(&mut out, s.failed_after_applied);
    push_text(&mut out, ",Impact unknown ");
    push_decimal(&mut out, s.failed_with_unknown_effect);
    push_text(&mut out, "),I/O completed ");
    push_decimal(&mut out, s.io_completions);
    push_text(&mut out, ",Record invalid ");
    push_decimal(&mut out, s.record_invalidations);
    push_text(&mut out, ",pending nanoseconds ");
    push_decimal(&mut out, s.pending_nanoseconds);
    push_text(&mut out, "\n");
    push_bins(&mut out, &s.io_per_request);
    out
}

impl Statistics {
    /// The statistics as text.
    pub open spec fn text(self) -> Seq<char> {
        "Statistics collection:"@ + flag(self.enabled) + ";count saturation:"@ + flag(
            self.saturated,
        ) + ";Measurement complete:"@ + flag(self.measurements_complete) + "\n"@ + operation_text(
            "read"@,
            self.reads,
        ) + operation_text("write"@, self.upserts) + operation_text("Modify"@, self.rmw)
            + operation_text("delete"@, self.deletes) + operation_text(
            "conditional copy"@,
            self.conditional_copies,
        ) + "cache:Query "@ + decimal(self.cache.lookups as nat) + ",hit "@ + decimal(
            self.cache.hits as nat,
        ) + ",Insert "@ + decimal(self.cache.insertions as nat) + ",Eliminate "@ + decimal(
            self.cache.evictions as nat,
        ) + ",Refresh "@ + decimal(self.cache.promotions as nat) + "\n"@ + "Index:Query "@
            + decimal(self.index.lookups as nat) + ",publish attempt "@ + decimal(
            self.index.publication_attempts as nat,
        ) + ",publishing conflict "@ + decimal(self.index.publication_conflicts as nat) + "\n"@
            + "Session refresh nanoseconds "@ + decimal(self.refresh_nanoseconds as nat)
            + ",Maintenance advances nanoseconds "@ + decimal(self.maintenance_nanoseconds as nat)
    }

    /// Writes the statistics as text.
    pub fn to_text(&self) -> (r: String)
        ensures
            r@ == self.text(),
    {
        let mut out = String::from_str("Statistics collection:");
        push_flag(&mut out, self.enabled);
        push_text(&mut out, ";count saturation:");
        push_flag(&mut out, self.saturated);
        push_text(&mut out, ";Measurement complete:");
        push_flag(&mut out, self.measurements_complete);
        push_text(&mut out, "\n");
        push_text(&mut out, operation_lines("read", &self.reads).as_str());
        push_text(&mut out, operation_lines("write", &self.upserts).as_str());
        push_text(&mut out, operation_lines("Modify", &self.rmw).as_str());
        push_text(&mut out, operation_lines("delete", &self.deletes).as_str());
        push_text(&mut out, operation_lines("conditional copy", &self.conditional_copies).as_str());
        push_text(&mut out, "cache:Query ");
        push_decimal(&mut out, self.cache.lookups);
        push_text(&mut out, ",hit ");
        push_decimal(&mut out, self.cache.hits);
        push_text(&mut out, ",Insert ");
        push_decimal(&mut out, self.cache.insertions);
        push_text(&mut out, ",Eliminate ");
        push_decimal(&mut out, self.cache.evictions);
        push_text(&mut out, ",Refresh ");
        push_decimal(&mut out, self.cache.promotions);
        push_text(&mut out, "\n");
        push_text(&mut out, "Index:Query ");
        push_decimal(&mut out, self.index.lookups);
        push_text(&mut out, ",publish attempt ");
        push_decimal(&mut out, self.index.publication_attempts);
        push_text(&mut out, ",publishing conflict ");
        push_decimal(&mut out, self.index.publication_conflicts);
        push_text(&mut out, "\n");
        push_text(&mut out, "Session refresh nanoseconds ");
        push_decimal(&mut out, self.refresh_nanoseconds);
        push_text(&mut out, ",Maintenance advances nanoseconds ");
        push_decimal(&mut out, self.maintenance_nanoseconds);
        out
    }
}

/// Statistics are displayed as their text.
impl std::fmt::Display for Statistics {
    fn fmt(&self, f: &mut std::fmt::Formatter<'_>) -> Result<(), std::fmt::Error> {
        let text = self.to_text();
        write_text(f, text.as_str())
    }
}

/// The bins cover all numbers of completions without a gap, each number in one bin: the first holds
/// zero, the second one, and each further one ends below twice where it starts.
pub proof fn law_bins_cover_all(bin: nat)
    ensures
        bin_low(0) == 0 && bin_high(0) == 0,
        bin_low(1) == 1 && bin_high(1) == 1,
        bin_low(bin + 1) == bin_high(bin) + 1,
        bin_low(bin) <= bin_high(bin),
        bin > 0 ==> bin_high(bin) + 1 == 2 * bin_low(bin),
        bin_high(64) == u64::MAX,
{
    lemma2_to64();
    lemma2_to64_rest();
    if bin > 0 {
        lemma_pow2_unfold(bin);
        vstd::arithmetic::power2::lemma_pow2_pos((bin - 1) as nat);
    }
}

/// A bin has a line exactly when it counted something, with its bounds and its count, and the lines come
/// in the order of the bins.
pub proof fn law_bins_have_lines(counts: Seq<u64>, bin: nat)
    requires
        bin < counts.len(),
    ensures
        bins_text(counts, 0).len() == 0,
        counts[bin as int] == 0 ==> bins_text(counts, bin + 1) == bins_text(counts, bin),
        counts[bin as int] != 0 ==> bins_text(counts, bin + 1) == bins_text(counts, bin)
            + "  per request I/O completed ["@ + decimal(bin_low(bin)) + ","@ + decimal(bin_high(bin))
            + "]:"@ + decimal(counts[bin as int] as nat) + "\n"@,
{
    if counts[bin as int] != 0 {
        assert(bins_text(counts, bin + 1) =~= bins_text(counts, bin)
            + "  per request I/O completed ["@ + decimal(bin_low(bin)) + ","@ + decimal(bin_high(bin))
            + "]:"@ + decimal(counts[bin as int] as nat) + "\n"@);
    }
}

/// What all bins count is what each of them counts.
pub proof fn law_bins_add_up(bins: Seq<u64>, count: u64)
    ensures
        bins_total(Seq::empty()) == 0,
        bins_total(bins.push(count)) == bins_total(bins) + count,
{
    assert(bins.push(count).drop_last() =~= bins);
}

/// Counters that counted nothing agree with each other.
pub proof fn law_nothing_counted_agrees(s: OperationStatistics)
    requires
        s.is_zero(),
    ensures
        s.outcomes_agree(),
        s.accepted == 0 && s.completed == 0 && s.success == 0 && s.failed == 0,
        bins_total(s.io_per_request@) == 0,
{
    lemma_bins_empty(s.io_per_request@);
}

} // verus!
