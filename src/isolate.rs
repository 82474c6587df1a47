//! Isolation of real roots by bisection over a work queue.
//!
//! The search range is laid out as a grid of `resolution` equal steps, and a
//! position on it is an integer in `0..=resolution`. A caller supplies the
//! number of sign changes of its Sturm sequence at any position; the
//! difference of that number between the two ends of a span is the number of
//! distinct roots inside the span. Spans are bisected on an explicit LIFO
//! queue, never by recursion, until each piece holds exactly one root and is
//! narrow enough, or can no longer be split.
use vstd::prelude::*;

verus! {

/// A span `(start, end]` of grid positions together with the sign-change
/// counts measured at its two ends.
#[derive(Clone, Copy, Debug, PartialEq, Eq, Structural)]
pub struct Isolated {
    pub start: u64,
    pub end: u64,
    pub start_changes: usize,
    pub end_changes: usize,
}

/// Whether `count` gives, at every pair of positions, a count at the later
/// one that does not exceed the count at the earlier one. Sturm's theorem
/// makes the sign-change count behave so; it also makes `count` a function.
pub open spec fn non_increasing<F: Fn(u64) -> usize>(count: F) -> bool {
    forall|p: u64, q: u64, a: usize, b: usize|
        p <= q && #[trigger] count.ensures((p,), a) && #[trigger] count.ensures((q,), b) ==> b
            <= a
}

/// Number of roots that the spans in `s` account for.
pub open spec fn total_roots(s: Seq<Isolated>) -> int
    decreases s.len(),
{
    if s.len() == 0 {
        0
    } else {
        total_roots(s.drop_last()) + s.last().start_changes - s.last().end_changes
    }
}

/// What `isolate_roots` promises of each span it returns.
pub open spec fn isolating<F: Fn(u64) -> usize>(
    count: F,
    o: Isolated,
    resolution: u64,
    accept_width: u64,
) -> bool {
    &&& o.start < o.end <= resolution
    &&& count.ensures((o.start,), o.start_changes)
    &&& count.ensures((o.end,), o.end_changes)
    &&& o.end_changes < o.start_changes
    &&& (o.start_changes == o.end_changes + 1 && o.end - o.start <= accept_width) || o.end
        == o.start + 1
}

/// Spans of `s` are disjoint and in ascending order.
pub open spec fn ascending(s: Seq<Isolated>) -> bool {
    forall|i: int, j: int| 0 <= i < j < s.len() ==> s[i].end <= s[j].start
}

spec fn measured<F: Fn(u64) -> usize>(count: F, t: Isolated, resolution: u64) -> bool {
    &&& t.start < t.end <= resolution
    &&& count.ensures((t.start,), t.start_changes)
    &&& count.ensures((t.end,), t.end_changes)
}

spec fn weight(q: Seq<Isolated>) -> nat
    decreases q.len(),
{
    if q.len() == 0 {
        0
    } else {
        weight(q.drop_last()) + (2 * (q.last().end - q.last().start) - 1) as nat
    }
}

proof fn lemma_push_sums(q: Seq<Isolated>, t: Isolated)
    ensures
        weight(q.push(t)) == weight(q) + (2 * (t.end - t.start) - 1) as nat,
        total_roots(q.push(t)) == total_roots(q) + t.start_changes - t.end_changes,
{
    assert(q.push(t).drop_last() =~= q);
}

/// Splits the grid `0..=resolution` into spans that each isolate the roots
/// counted by `count`. A span is returned once its counts differ by exactly
/// one and it is at most `accept_width` steps wide, or once it is a single
/// step wide and its counts still differ; a span whose counts do not drop is
/// dropped. The spans come back disjoint and in ascending order, and for a
/// non-increasing `count` they account for every root on the grid.
pub fn isolate_roots<F: Fn(u64) -> usize>(count: &F, resolution: u64, accept_width: u64) -> (r:
    Vec<Isolated>)
    requires
        resolution >= 1,
        forall|p: u64| p <= resolution ==> #[trigger] count.requires((p,)),
    ensures
        forall|i: int|
            0 <= i < r@.len() ==> #[trigger] isolating(*count, r@[i], resolution, accept_width),
        ascending(r@),
        non_increasing(*count) ==> forall|a: usize, b: usize|
            #[trigger] count.ensures((0u64,), a) && #[trigger] count.ensures((resolution,), b)
                ==> total_roots(r@) == a - b,
{
    let s0 = count(0);
    let e0 = count(resolution);
    let mut queue: Vec<Isolated> = Vec::new();
    queue.push(Isolated { start: 0, end: resolution, start_changes: s0, end_changes: e0 });
    let mut out: Vec<Isolated> = Vec::new();
    proof {
        lemma_push_sums(Seq::empty(), queue@[0]);
        assert(queue@ =~= Seq::<Isolated>::empty().push(queue@[0]));
    }
    while queue.len() > 0
        invariant
            forall|p: u64| p <= resolution ==> #[trigger] count.requires((p,)),
            count.ensures((0u64,), s0),
            count.ensures((resolution,), e0),
            forall|i: int| 0 <= i < queue@.len() ==> #[trigger] measured(*count, queue@[i], resolution),
            forall|i: int|
                0 <= i < out@.len() ==> #[trigger] isolating(*count, out@[i], resolution, accept_width),
            forall|i: int, j: int| 0 <= i < j < queue@.len() ==> queue@[j].end <= queue@[i].start,
            forall|i: int, j: int| 0 <= i < out@.len() && 0 <= j < queue@.len() ==> out@[i].end <= queue@[j].start,
            ascending(out@),
            non_increasing(*count) ==> total_roots(out@) + total_roots(queue@) == s0 - e0,
        decreases weight(queue@),
    {
        let ghost q0 = queue@;
        let task = queue.pop().unwrap();
        proof {
            assert(q0 =~= queue@.push(task));
            lemma_push_sums(queue@, task);
            assert(measured(*count, q0[q0.len() - 1], resolution));
        }
        let width = task.end - task.start;
        if task.start_changes <= task.end_changes {
            proof {
                if non_increasing(*count) {
                    assert(task.end_changes <= task.start_changes);
                }
            }
        } else if (task.start_changes == task.end_changes + 1 && width <= accept_width) || width == 1 {
            let ghost o0 = out@;
            out.push(task);
            proof {
                lemma_push_sums(o0, task);
                assert(isolating(*count, out@[o0.len() as int], resolution, accept_width));
                assert forall|i: int, j: int| 0 <= i < j < out@.len() implies out@[i].end <= out@[j].start by {
                    if j == o0.len() {
                        assert(out@[i] == o0[i]);
                    }
                }
                assert forall|i: int, j: int| 0 <= i < out@.len() && 0 <= j < queue@.len() implies out@[i].end <= queue@[j].start by {
                    assert(queue@[j] == q0[j]);
                    if i < o0.len() {
                        assert(out@[i] == o0[i]);
                    }
                }
                assert forall|i: int| 0 <= i < out@.len() implies #[trigger] isolating(*count, out@[i], resolution, accept_width) by {
                    if i < o0.len() {
                        assert(out@[i] == o0[i]);
                    }
                }
            }
        } else {
            let mid = task.start + width / 2;
            let m = count(mid);
            let right = Isolated { start: mid, end: task.end, start_changes: m, end_changes: task.end_changes };
            let left = Isolated { start: task.start, end: mid, start_changes: task.start_changes, end_changes: m };
            let ghost q1 = queue@;
            queue.push(right);
            let ghost q2 = queue@;
            queue.push(left);
            proof {
                lemma_push_sums(q1, right);
                lemma_push_sums(q2, left);
                assert(measured(*count, right, resolution));
                assert(measured(*count, left, resolution));
                assert forall|i: int| 0 <= i < queue@.len() implies #[trigger] measured(*count, queue@[i], resolution) by {
                    if i < q1.len() {
                        assert(queue@[i] == q0[i]);
                    }
                }
                assert forall|i: int, j: int| 0 <= i < j < queue@.len() implies queue@[j].end <= queue@[i].start by {
                    if i < q1.len() {
                        assert(queue@[i] == q0[i]);
                        assert(q0[q0.len() - 1] == task);
                        if j < q1.len() {
                            assert(queue@[j] == q0[j]);
                        }
                    }
                }
                assert forall|i: int, j: int| 0 <= i < out@.len() && 0 <= j < queue@.len() implies out@[i].end <= queue@[j].start by {
                    assert(out@[i].end <= q0[q0.len() - 1].start);
                    if j < q1.len() {
                        assert(queue@[j] == q0[j]);
                    }
                }
            }
        }
    }
    out
}

} // verus!
