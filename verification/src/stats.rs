//! Consistency statistics: the derivation of the final report from the raw
//! per-tick counts and the ordered stream of received sequence numbers.
//!
//! Everything here is a pure function over the finalized record buffers; no
//! metric is computed incrementally during a run. Percentages are left to the
//! caller as exact numerator/denominator pairs (entry ticks over total
//! ticks), so the report itself stays in integer arithmetic.

use vstd::prelude::*;

use crate::client::ClientState;
use crate::server::ServerState;

verus! {

// ---------------------------------------------------------------------------
// Spec-level views of the raw buffers
// ---------------------------------------------------------------------------

/// How many entries of `s` equal `v`.
pub open spec fn multiplicity(s: Seq<u64>, v: u64) -> int
    decreases s.len(),
{
    if s.len() == 0 {
        0
    } else {
        multiplicity(s.drop_last(), v) + if s.last() == v {
            1int
        } else {
            0int
        }
    }
}

/// The sum of all entries of `s`.
pub open spec fn sum_counts(s: Seq<u64>) -> int
    decreases s.len(),
{
    if s.len() == 0 {
        0
    } else {
        sum_counts(s.drop_last()) + s.last()
    }
}

/// Appending a count adds exactly its value to the sum.
pub proof fn lemma_sum_counts_push(s: Seq<u64>, v: u64)
    ensures
        sum_counts(s.push(v)) == sum_counts(s) + v,
{
    assert(s.push(v).drop_last() =~= s);
}

/// How many entries of `s` exceed one: ticks in which deliveries were batched.
pub open spec fn batched_count(s: Seq<u64>) -> int
    decreases s.len(),
{
    if s.len() == 0 {
        0
    } else {
        batched_count(s.drop_last()) + if s.last() > 1 {
            1int
        } else {
            0int
        }
    }
}

/// How many entries of `s` are zero: ticks in which nothing arrived.
pub open spec fn empty_count(s: Seq<u64>) -> int
    decreases s.len(),
{
    if s.len() == 0 {
        0
    } else {
        empty_count(s.drop_last()) + if s.last() == 0 {
            1int
        } else {
            0int
        }
    }
}

/// The largest entry of `s`, and zero when `s` is empty.
pub open spec fn max_of(s: Seq<u64>) -> u64
    decreases s.len(),
{
    if s.len() == 0 {
        0
    } else if s.last() >= max_of(s.drop_last()) {
        s.last()
    } else {
        max_of(s.drop_last())
    }
}

/// How many adjacent pairs of `s` fail to increase strictly: a received
/// sequence number that does not exceed its immediate predecessor counts as
/// out of order (a duplicate counts too).
pub open spec fn out_of_order_count(s: Seq<u64>) -> int
    decreases s.len(),
{
    if s.len() <= 1 {
        0
    } else {
        out_of_order_count(s.drop_last()) + if s.last() <= s[s.len() - 2] {
            1int
        } else {
            0int
        }
    }
}

/// Every entry is strictly larger than every earlier entry.
pub open spec fn strictly_increasing(s: Seq<u64>) -> bool {
    forall|i: int, j: int| 0 <= i < j < s.len() ==> s[i] < s[j]
}

/// The loss estimate inferred from a sequence-number range: the expected
/// count `last - first + 1` minus the received count, floored at zero.
pub open spec fn loss_of(first: u64, last: u64, received: int) -> int {
    let expected = last - first + 1;
    if expected - received > 0 {
        expected - received
    } else {
        0
    }
}

// ---------------------------------------------------------------------------
// Executable metric functions
// ---------------------------------------------------------------------------

/// Number of ticks whose count exceeds one.
pub fn count_batched(counts: &Vec<u64>) -> (r: u64)
    ensures
        r == batched_count(counts@),
{
    let mut r: u64 = 0;
    let mut i: usize = 0;
    while i < counts.len()
        invariant
            i <= counts@.len(),
            r == batched_count(counts@.take(i as int)),
            r <= i,
        decreases counts@.len() - i,
    {
        proof {
            assert(counts@.take(i + 1).drop_last() =~= counts@.take(i as int));
        }
        if counts[i] > 1 {
            r = r + 1;
        }
        i = i + 1;
    }
    proof {
        assert(counts@.take(counts@.len() as int) =~= counts@);
    }
    r
}

/// Number of ticks whose count is zero.
pub fn count_empty(counts: &Vec<u64>) -> (r: u64)
    ensures
        r == empty_count(counts@),
{
    let mut r: u64 = 0;
    let mut i: usize = 0;
    while i < counts.len()
        invariant
            i <= counts@.len(),
            r == empty_count(counts@.take(i as int)),
            r <= i,
        decreases counts@.len() - i,
    {
        proof {
            assert(counts@.take(i + 1).drop_last() =~= counts@.take(i as int));
        }
        if counts[i] == 0 {
            r = r + 1;
        }
        i = i + 1;
    }
    proof {
        assert(counts@.take(counts@.len() as int) =~= counts@);
    }
    r
}

/// The largest per-tick count observed, or nothing for an empty run.
pub fn max_batch(counts: &Vec<u64>) -> (r: Option<u64>)
    ensures
        (r is Some) <==> counts@.len() > 0,
        r matches Some(m) ==> m == max_of(counts@),
{
    if counts.len() == 0 {
        return None;
    }
    let mut m: u64 = counts[0];
    let mut i: usize = 1;
    proof {
        assert(counts@.take(1).drop_last() =~= Seq::<u64>::empty());
        assert(max_of(Seq::<u64>::empty()) == 0);
        assert(counts@.take(1).last() == counts@[0]);
    }
    while i < counts.len()
        invariant
            1 <= i <= counts@.len(),
            m == max_of(counts@.take(i as int)),
        decreases counts@.len() - i,
    {
        proof {
            assert(counts@.take(i + 1).drop_last() =~= counts@.take(i as int));
        }
        if counts[i] > m {
            m = counts[i];
        }
        i = i + 1;
    }
    proof {
        assert(counts@.take(counts@.len() as int) =~= counts@);
    }
    Some(m)
}

/// Number of adjacent out-of-order (or duplicate) pairs in receipt order.
pub fn out_of_order(seqs: &Vec<u64>) -> (r: u64)
    ensures
        r == out_of_order_count(seqs@),
{
    if seqs.len() == 0 {
        return 0;
    }
    let mut r: u64 = 0;
    let mut i: usize = 1;
    proof {
        assert(out_of_order_count(seqs@.take(1)) == 0);
    }
    while i < seqs.len()
        invariant
            1 <= i <= seqs@.len(),
            r == out_of_order_count(seqs@.take(i as int)),
            r < i,
        decreases seqs@.len() - i,
    {
        proof {
            assert(seqs@.take(i + 1).drop_last() =~= seqs@.take(i as int));
        }
        if seqs[i] <= seqs[i - 1] {
            r = r + 1;
        }
        i = i + 1;
    }
    proof {
        assert(seqs@.take(seqs@.len() as int) =~= seqs@);
    }
    r
}

/// One row of the per-tick distribution table: how many ticks saw exactly
/// `count` messages.
#[derive(Clone, Copy, Debug, PartialEq, Eq, Structural)]
pub struct DistributionEntry {
    pub count: u64,
    pub ticks: u64,
}

/// The ticks an entry contributes to the key `v`.
pub open spec fn entry_contrib(e: DistributionEntry, v: u64) -> int {
    if e.count == v {
        e.ticks as int
    } else {
        0
    }
}

/// The ticks the table records under the key `v` (zero for an absent key).
pub open spec fn dist_ticks(d: Seq<DistributionEntry>, v: u64) -> int
    decreases d.len(),
{
    if d.len() == 0 {
        0
    } else {
        dist_ticks(d.drop_last(), v) + entry_contrib(d.last(), v)
    }
}

/// The total ticks the table records over all of its keys.
pub open spec fn dist_total(d: Seq<DistributionEntry>) -> int
    decreases d.len(),
{
    if d.len() == 0 {
        0
    } else {
        dist_total(d.drop_last()) + d.last().ticks
    }
}

/// The table's keys are in strictly ascending numeric order.
pub open spec fn keys_ascending(d: Seq<DistributionEntry>) -> bool {
    forall|i: int, j: int| 0 <= i < j < d.len() ==> d[i].count < d[j].count
}

proof fn lemma_dist_ticks_update(d: Seq<DistributionEntry>, j: int, e: DistributionEntry, v: u64)
    requires
        0 <= j < d.len(),
    ensures
        dist_ticks(d.update(j, e), v) == dist_ticks(d, v) - entry_contrib(d[j], v) + entry_contrib(
            e,
            v,
        ),
    decreases d.len(),
{
    if j == d.len() - 1 {
        assert(d.update(j, e).drop_last() =~= d.drop_last());
    } else {
        assert(d.update(j, e).drop_last() =~= d.drop_last().update(j, e));
        lemma_dist_ticks_update(d.drop_last(), j, e, v);
    }
}

proof fn lemma_dist_ticks_insert(d: Seq<DistributionEntry>, j: int, e: DistributionEntry, v: u64)
    requires
        0 <= j <= d.len(),
    ensures
        dist_ticks(d.insert(j, e), v) == dist_ticks(d, v) + entry_contrib(e, v),
    decreases d.len(),
{
    if j == d.len() {
        assert(d.insert(j, e).drop_last() =~= d);
        assert(d.insert(j, e).last() == e);
    } else {
        assert(d.insert(j, e).drop_last() =~= d.drop_last().insert(j, e));
        assert(d.insert(j, e).last() == d.last());
        lemma_dist_ticks_insert(d.drop_last(), j, e, v);
    }
}

proof fn lemma_dist_total_update(d: Seq<DistributionEntry>, j: int, e: DistributionEntry)
    requires
        0 <= j < d.len(),
    ensures
        dist_total(d.update(j, e)) == dist_total(d) - d[j].ticks + e.ticks,
    decreases d.len(),
{
    if j == d.len() - 1 {
        assert(d.update(j, e).drop_last() =~= d.drop_last());
    } else {
        assert(d.update(j, e).drop_last() =~= d.drop_last().update(j, e));
        lemma_dist_total_update(d.drop_last(), j, e);
    }
}

proof fn lemma_dist_total_insert(d: Seq<DistributionEntry>, j: int, e: DistributionEntry)
    requires
        0 <= j <= d.len(),
    ensures
        dist_total(d.insert(j, e)) == dist_total(d) + e.ticks,
    decreases d.len(),
{
    if j == d.len() {
        assert(d.insert(j, e).drop_last() =~= d);
        assert(d.insert(j, e).last() == e);
    } else {
        assert(d.insert(j, e).drop_last() =~= d.drop_last().insert(j, e));
        assert(d.insert(j, e).last() == d.last());
        lemma_dist_total_insert(d.drop_last(), j, e);
    }
}

/// The distribution table: for each distinct per-tick count, the number of
/// ticks that saw exactly that count, with keys in ascending order. The
/// recorded totals sum to the number of ticks, so the percentages derived
/// from the table (ticks over total) sum to one whole.
#[verifier::loop_isolation(false)]
pub fn distribution(counts: &Vec<u64>) -> (d: Vec<DistributionEntry>)
    ensures
        keys_ascending(d@),
        forall|v: u64| #[trigger] dist_ticks(d@, v) == multiplicity(counts@, v),
        dist_total(d@) == counts@.len(),
        forall|k: int| 0 <= k < d@.len() ==> 1 <= #[trigger] d@[k].ticks,
{
    let mut d: Vec<DistributionEntry> = Vec::new();
    let mut i: usize = 0;
    while i < counts.len()
        invariant
            i <= counts@.len(),
            keys_ascending(d@),
            forall|v: u64| #[trigger] dist_ticks(d@, v) == multiplicity(counts@.take(i as int), v),
            dist_total(d@) == i,
            forall|k: int| 0 <= k < d@.len() ==> 1 <= #[trigger] d@[k].ticks && d@[k].ticks <= i,
        decreases counts@.len() - i,
    {
        let v = counts[i];
        let ghost pre = d@;
        proof {
            assert(counts@.take(i + 1).drop_last() =~= counts@.take(i as int));
            assert(counts@.take(i + 1).last() == v);
            assert(forall|w: u64| #[trigger] multiplicity(counts@.take(i + 1), w) == multiplicity(
                counts@.take(i as int),
                w,
            ) + entry_contrib(DistributionEntry { count: v, ticks: 1 }, w));
        }
        let mut j: usize = 0;
        while j < d.len() && d[j].count < v
            invariant
                j <= d@.len(),
                forall|k: int| 0 <= k < j ==> d@[k].count < v,
            decreases d@.len() - j,
        {
            j = j + 1;
        }
        if j < d.len() && d[j].count == v {
            let t = d[j].ticks;
            let e = DistributionEntry { count: v, ticks: t + 1 };
            d[j] = e;
            proof {
                assert(d@ =~= pre.update(j as int, e));
                assert forall|w: u64| #[trigger] dist_ticks(d@, w) == multiplicity(
                    counts@.take(i + 1),
                    w,
                ) by {
                    lemma_dist_ticks_update(pre, j as int, e, w);
                }
                lemma_dist_total_update(pre, j as int, e);
            }
        } else {
            // `v` is not yet a key: every entry before `j` is below it and,
            // by the ascending order, every entry from `j` on is above it.
            proof {
                assert(forall|k: int| j <= k < pre.len() ==> v < #[trigger] pre[k].count);
            }
            let e = DistributionEntry { count: v, ticks: 1 };
            d.insert(j, e);
            proof {
                assert forall|w: u64| #[trigger] dist_ticks(d@, w) == multiplicity(
                    counts@.take(i + 1),
                    w,
                ) by {
                    lemma_dist_ticks_insert(pre, j as int, e, w);
                    if w == v {
                        assert(dist_ticks(pre, v) == multiplicity(counts@.take(i as int), v));
                    }
                }
                lemma_dist_total_insert(pre, j as int, e);
            }
        }
        i = i + 1;
    }
    proof {
        assert(counts@.take(counts@.len() as int) =~= counts@);
    }
    d
}

/// Law: a received-sequence stream has an out-of-order count of zero exactly
/// when it is strictly increasing.
pub proof fn lemma_out_of_order_zero_iff_strictly_increasing(s: Seq<u64>)
    ensures
        out_of_order_count(s) == 0 <==> strictly_increasing(s),
    decreases s.len(),
{
    lemma_out_of_order_nonneg(s);
    if s.len() <= 1 {
    } else {
        let prefix = s.drop_last();
        lemma_out_of_order_zero_iff_strictly_increasing(prefix);
        lemma_out_of_order_nonneg(prefix);
        if out_of_order_count(s) == 0 {
            assert forall|i: int, j: int| 0 <= i < j < s.len() implies s[i] < s[j] by {
                if j < s.len() - 1 {
                    assert(prefix[i] < prefix[j]);
                } else if i < s.len() - 2 {
                    assert(prefix[i] < prefix[s.len() - 2]);
                }
            }
        }
        if strictly_increasing(s) {
            assert(strictly_increasing(prefix)) by {
                assert(forall|i: int, j: int|
                    0 <= i < j < prefix.len() ==> prefix[i] == s[i] && prefix[j] == s[j]);
            }
        }
    }
}

/// The out-of-order count never goes negative.
proof fn lemma_out_of_order_nonneg(s: Seq<u64>)
    ensures
        out_of_order_count(s) >= 0,
    decreases s.len(),
{
    if s.len() > 1 {
        lemma_out_of_order_nonneg(s.drop_last());
    }
}

/// A strictly increasing stream of `n` sequence numbers spans a range of at
/// least `n`: its count never exceeds `last - first + 1`.
pub proof fn lemma_strictly_increasing_span(s: Seq<u64>)
    requires
        s.len() > 0,
        strictly_increasing(s),
    ensures
        s[0] <= s.last(),
        s.len() <= s.last() - s[0] + 1,
    decreases s.len(),
{
    if s.len() > 1 {
        let prefix = s.drop_last();
        assert(strictly_increasing(prefix)) by {
            assert(forall|i: int, j: int|
                0 <= i < j < prefix.len() ==> prefix[i] == s[i] && prefix[j] == s[j]);
        }
        lemma_strictly_increasing_span(prefix);
        assert(s[s.len() - 2] < s.last());
    }
}

/// Law: the loss estimate is never negative, and whenever the received
/// stream is strictly increasing it equals the expected count
/// `last - first + 1` minus the received count exactly, with no flooring.
pub proof fn lemma_loss_exact_when_strictly_increasing(s: Seq<u64>)
    requires
        s.len() > 0,
        strictly_increasing(s),
    ensures
        loss_of(s[0], s.last(), s.len() as int) >= 0,
        loss_of(s[0], s.last(), s.len() as int) == (s.last() - s[0] + 1) - s.len(),
{
    lemma_strictly_increasing_span(s);
}

/// The sequence range and the loss inferred from it: the first and last
/// received sequence numbers, the count the span makes expected, and the
/// shortfall floored at zero. Nothing for an empty stream.
#[derive(Clone, Copy, Debug, PartialEq, Eq, Structural)]
pub struct SequenceRange {
    pub first: u64,
    pub last: u64,
    pub expected: u64,
    pub lost: u64,
}

/// Derives the sequence range and loss estimate from the received stream.
/// Sequence numbers are assigned by the sender starting at one, which keeps
/// the expected count within range.
pub fn sequence_range(seqs: &Vec<u64>) -> (r: Option<SequenceRange>)
    requires
        seqs@.len() > 0 ==> seqs@[0] >= 1,
    ensures
        (r is Some) <==> seqs@.len() > 0,
        r matches Some(sr) ==> {
            &&& sr.first == seqs@[0]
            &&& sr.last == seqs@.last()
            &&& sr.expected == if sr.last >= sr.first {
                sr.last - sr.first + 1
            } else {
                0int
            }
            &&& sr.lost == loss_of(sr.first, sr.last, seqs@.len() as int)
        },
{
    if seqs.len() == 0 {
        return None;
    }
    let first = seqs[0];
    let last = seqs[seqs.len() - 1];
    let expected: u64 = if last >= first {
        last - first + 1
    } else {
        0
    };
    let received = seqs.len() as u64;
    let lost: u64 = if expected > received {
        expected - received
    } else {
        0
    };
    Some(SequenceRange { first, last, expected, lost })
}

/// The client-side loss estimate: sent count minus received-echo count,
/// floored at zero.
pub fn client_loss(total_sent: u64, total_received: u64) -> (r: u64)
    ensures
        r == if total_sent >= total_received {
            total_sent - total_received
        } else {
            0int
        },
{
    if total_sent >= total_received {
        total_sent - total_received
    } else {
        0
    }
}

// ---------------------------------------------------------------------------
// Final reports
// ---------------------------------------------------------------------------

/// The server's derived metrics; present only when at least one connected
/// tick was recorded.
pub struct ServerMetrics {
    /// Per-tick count distribution, keys ascending; the recorded ticks sum
    /// to the total, so each entry's share of the total is its percentage.
    pub distribution: Vec<DistributionEntry>,
    /// Ticks that saw more than one update.
    pub batched_ticks: u64,
    /// Ticks that saw none.
    pub empty_ticks: u64,
    /// Adjacent received pairs that failed to increase strictly.
    pub out_of_order: u64,
    /// Sequence range and loss estimate; absent when no update was received.
    pub range: Option<SequenceRange>,
    /// The largest single-tick count.
    pub max_batch: u64,
}

/// The server's final report, derived once at run end.
pub struct ServerReport {
    pub total_ticks: u64,
    pub total_received: u64,
    pub echoes_sent: u64,
    /// Nothing when no connected tick was recorded: the run has no data.
    pub metrics: Option<ServerMetrics>,
}

/// Derives the server's report from the finalized buffers, in one pass, with
/// no incremental recomputation. A run that recorded nothing yields a report
/// without metrics rather than meaningless ratios. Sequence numbers are
/// assigned by the sender starting at one.
pub fn derive_server_report(s: &ServerState) -> (r: ServerReport)
    requires
        s.recv_sequences@.len() > 0 ==> s.recv_sequences@[0] >= 1,
    ensures
        r.total_ticks == s.total_ticks,
        r.total_received == s.recv_sequences@.len(),
        r.echoes_sent == s.echoes_sent,
        (r.metrics is Some) <==> s.recv_counts@.len() > 0,
        r.metrics matches Some(m) ==> {
            &&& keys_ascending(m.distribution@)
            &&& forall|v: u64| #[trigger] dist_ticks(m.distribution@, v) == multiplicity(
                s.recv_counts@,
                v,
            )
            &&& dist_total(m.distribution@) == s.recv_counts@.len()
            &&& m.batched_ticks == batched_count(s.recv_counts@)
            &&& m.empty_ticks == empty_count(s.recv_counts@)
            &&& m.out_of_order == out_of_order_count(s.recv_sequences@)
            &&& ((m.range is Some) <==> s.recv_sequences@.len() > 0)
            &&& (m.range matches Some(sr) ==> sr.first == s.recv_sequences@[0] && sr.last
                == s.recv_sequences@.last() && sr.expected == (if sr.last >= sr.first {
                sr.last - sr.first + 1
            } else {
                0int
            }) && sr.lost == loss_of(sr.first, sr.last, s.recv_sequences@.len() as int))
            &&& m.max_batch == max_of(s.recv_counts@)
        },
{
    let total_received = s.recv_sequences.len() as u64;
    if s.recv_counts.len() == 0 {
        return ServerReport {
            total_ticks: s.total_ticks,
            total_received,
            echoes_sent: s.echoes_sent,
            metrics: None,
        };
    }
    let dist = distribution(&s.recv_counts);
    let batched = count_batched(&s.recv_counts);
    let empty = count_empty(&s.recv_counts);
    let ooo = out_of_order(&s.recv_sequences);
    let range = sequence_range(&s.recv_sequences);
    let mb = match max_batch(&s.recv_counts) {
        Some(m) => m,
        None => 0,
    };
    ServerReport {
        total_ticks: s.total_ticks,
        total_received,
        echoes_sent: s.echoes_sent,
        metrics: Some(
            ServerMetrics {
                distribution: dist,
                batched_ticks: batched,
                empty_ticks: empty,
                out_of_order: ooo,
                range,
                max_batch: mb,
            },
        ),
    }
}

/// The client's derived metrics; present only when at least one connected
/// tick was recorded.
pub struct ClientMetrics {
    /// Per-tick echo-count distribution, keys ascending; the recorded ticks
    /// sum to the total.
    pub distribution: Vec<DistributionEntry>,
    /// Ticks that saw more than one echo.
    pub batched_ticks: u64,
    /// The largest single-tick echo count.
    pub max_batch: u64,
}

/// The client's final report, derived once at run end.
pub struct ClientReport {
    pub total_sent: u64,
    pub total_received: u64,
    pub total_ticks: u64,
    /// Nothing when no connected tick was recorded.
    pub metrics: Option<ClientMetrics>,
    /// Sent count minus received-echo count, floored at zero.
    pub lost: u64,
}

/// Derives the client's report from the finalized buffers, in one pass.
pub fn derive_client_report(c: &ClientState) -> (r: ClientReport)
    ensures
        r.total_sent == c.total_sent,
        r.total_received == c.recv_total,
        r.total_ticks == c.total_ticks,
        r.lost == if c.total_sent >= c.recv_total {
            c.total_sent - c.recv_total
        } else {
            0int
        },
        (r.metrics is Some) <==> c.recv_counts@.len() > 0,
        r.metrics matches Some(m) ==> {
            &&& keys_ascending(m.distribution@)
            &&& forall|v: u64| #[trigger] dist_ticks(m.distribution@, v) == multiplicity(
                c.recv_counts@,
                v,
            )
            &&& dist_total(m.distribution@) == c.recv_counts@.len()
            &&& m.batched_ticks == batched_count(c.recv_counts@)
            &&& m.max_batch == max_of(c.recv_counts@)
        },
{
    let lost = client_loss(c.total_sent, c.recv_total);
    if c.recv_counts.len() == 0 {
        return ClientReport {
            total_sent: c.total_sent,
            total_received: c.recv_total,
            total_ticks: c.total_ticks,
            metrics: None,
            lost,
        };
    }
    let dist = distribution(&c.recv_counts);
    let batched = count_batched(&c.recv_counts);
    let mb = match max_batch(&c.recv_counts) {
        Some(m) => m,
        None => 0,
    };
    ClientReport {
        total_sent: c.total_sent,
        total_received: c.recv_total,
        total_ticks: c.total_ticks,
        metrics: Some(ClientMetrics { distribution: dist, batched_ticks: batched, max_batch: mb }),
        lost,
    }
}

} // verus!
