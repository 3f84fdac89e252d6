use vstd::prelude::*;
use crate::cli::{SplitPoint, SplitRange};
use crate::ffmpeg::{quietest, quietest_point, FFmpegError, LoudnessSample};

verus! {

/// Where a split of the plan comes from.
#[derive(Debug, Clone, Copy, PartialEq, Eq, Structural)]
pub enum SplitSource {
    /// The split was given.
    Explicit,
    /// The split is the quietest moment of this range.
    Range { start: u64, end: u64 },
}

/// A split with its origin.
#[derive(Debug, Clone, Copy, PartialEq, Eq, Structural)]
pub struct PlannedSplit {
    pub point: SplitPoint,
    pub source: SplitSource,
}

/// A split range together with the loudness measurements taken over it.
#[derive(Debug, Clone)]
pub struct MeasuredRange {
    pub range: SplitRange,
    pub samples: Vec<LoudnessSample>,
}

/// The splits in the order of their times, and the delay of each segment.
#[derive(Debug, Clone)]
pub struct SplitPlan {
    pub splits: Vec<SplitPoint>,
    /// Where each split comes from, in the order of `splits`.
    pub sources: Vec<SplitSource>,
    /// The delay of the segment before the first split, then the delay of the
    /// segment that begins at each split.
    pub delays: Vec<i64>,
}

/// Whether the splits stand in the order of their times.
pub open spec fn sorted_by_time(s: Seq<PlannedSplit>) -> bool {
    forall|i: int, j: int| 0 <= i <= j < s.len() ==> s[i].point.time <= s[j].point.time
}

/// Whether the split points stand in the order of their times.
pub open spec fn times_ascend(s: Seq<SplitPoint>) -> bool {
    forall|i: int, j: int| 0 <= i <= j < s.len() ==> s[i].time <= s[j].time
}

/// The splits of `s` at time `t`, in their order.
pub open spec fn at_time(s: Seq<PlannedSplit>, t: u64) -> Seq<PlannedSplit> {
    s.filter(|p: PlannedSplit| p.point.time == t)
}

/// `s`, which is in the order of time, with `x` put behind every split that is not later than `x`.
pub open spec fn insert_by_time(s: Seq<PlannedSplit>, x: PlannedSplit) -> Seq<PlannedSplit>
    decreases s.len(),
{
    if s.len() > 0 && s.last().point.time > x.point.time {
        insert_by_time(s.drop_last(), x).push(s.last())
    } else {
        s.push(x)
    }
}

/// The splits of `s` in the order of time; splits at one time keep the order they have in `s`.
pub open spec fn sort_by_time(s: Seq<PlannedSplit>) -> Seq<PlannedSplit>
    decreases s.len(),
{
    if s.len() == 0 {
        Seq::empty()
    } else {
        insert_by_time(sort_by_time(s.drop_last()), s.last())
    }
}

impl SplitPlan {
    /// The plan is in the order of time, has one delay more than it has splits,
    /// and gives each segment the delay of the split at which it begins.
    pub open spec fn wf(&self) -> bool {
        &&& times_ascend(self.splits@)
        &&& self.sources@.len() == self.splits@.len()
        &&& self.delays@.len() == self.splits@.len() + 1
        &&& forall|i: int| 0 <= i < self.splits@.len() ==> self.delays@[i + 1] == self.splits@[i].delay
    }

    /// The splits of the plan with their origins.
    pub open spec fn entries(&self) -> Seq<PlannedSplit> {
        Seq::new(
            self.splits@.len(),
            |i: int| PlannedSplit { point: self.splits@[i], source: self.sources@[i] },
        )
    }
}

/// Putting a split in by time puts it at the place before which no split is later and behind which every split is.
proof fn lemma_insert_at(s: Seq<PlannedSplit>, x: PlannedSplit, pos: int)
    requires
        0 <= pos <= s.len(),
        forall|j: int| pos <= j < s.len() ==> s[j].point.time > x.point.time,
        pos == 0 || s[pos - 1].point.time <= x.point.time,
    ensures
        insert_by_time(s, x) == s.insert(pos, x),
    decreases s.len(),
{
    if pos < s.len() {
        lemma_insert_at(s.drop_last(), x, pos);
        assert(s.drop_last().insert(pos, x).push(s.last()) =~= s.insert(pos, x));
    } else {
        assert(s.push(x) =~= s.insert(pos, x));
    }
}

/// Putting a split into a plan that is in the order of time leaves it in that
/// order, adds the split behind those of its time, and moves no other.
pub proof fn lemma_insert_by_time(s: Seq<PlannedSplit>, x: PlannedSplit, t: u64)
    requires
        sorted_by_time(s),
    ensures
        sorted_by_time(insert_by_time(s, x)),
        insert_by_time(s, x).len() == s.len() + 1,
        insert_by_time(s, x).to_multiset() == s.to_multiset().insert(x),
        at_time(insert_by_time(s, x), t) == if x.point.time == t {
            at_time(s, t).push(x)
        } else {
            at_time(s, t)
        },
    decreases s.len(),
{
    broadcast use vstd::seq_lib::to_multiset_build;

    let keep = |p: PlannedSplit| p.point.time == t;
    if s.len() > 0 && s.last().point.time > x.point.time {
        let front = s.drop_last();
        let last = s.last();
        assert(sorted_by_time(front)) by {
            assert forall|i: int, j: int| 0 <= i <= j < front.len() implies front[i].point.time
                <= front[j].point.time by {
                assert(front[i] == s[i] && front[j] == s[j]);
            }
        }
        lemma_insert_by_time(front, x, t);
        let mid = insert_by_time(front, x);
        let out = mid.push(last);
        assert(sorted_by_time(out)) by {
            assert forall|k: int| 0 <= k < mid.len() implies mid[k].point.time
                <= last.point.time by {
                assert(mid.to_multiset().contains(mid[k])) by {
                    mid.to_multiset_ensures();
                }
                if mid[k] != x {
                    assert(front.to_multiset().contains(mid[k]));
                    front.to_multiset_ensures();
                    let m = choose|m: int| 0 <= m < front.len() && front[m] == mid[k];
                    assert(s[m] == front[m]);
                }
            }
            assert forall|i: int, j: int| 0 <= i <= j < out.len() implies out[i].point.time
                <= out[j].point.time by {
                if j < mid.len() {
                    assert(out[i] == mid[i] && out[j] == mid[j]);
                } else if i < mid.len() {
                    assert(out[i] == mid[i]);
                }
            }
        }
        assert(s =~= front.push(last));
        assert(out.to_multiset() =~= s.to_multiset().insert(x));
        front.lemma_filter_push(last, keep);
        mid.lemma_filter_push(last, keep);
        assert(at_time(s, t) == front.push(last).filter(keep));
        if x.point.time == t {
            assert(last.point.time != t);
        } else if last.point.time == t {
        }
    } else {
        let out = s.push(x);
        assert(sorted_by_time(out)) by {
            assert forall|i: int, j: int| 0 <= i <= j < out.len() implies out[i].point.time
                <= out[j].point.time by {
                if j < s.len() {
                    assert(out[i] == s[i] && out[j] == s[j]);
                } else if i < s.len() {
                    assert(out[i] == s[i]);
                    assert(s[i].point.time <= s[s.len() - 1].point.time);
                }
            }
        }
        s.lemma_filter_push(x, keep);
    }
}

/// Sorting puts the splits in the order of time.
pub proof fn lemma_sort_ascends(s: Seq<PlannedSplit>)
    ensures
        sorted_by_time(sort_by_time(s)),
        sort_by_time(s).len() == s.len(),
    decreases s.len(),
{
    if s.len() > 0 {
        lemma_sort_ascends(s.drop_last());
        lemma_insert_by_time(sort_by_time(s.drop_last()), s.last(), 0);
    }
}

/// Sorting keeps every split, as often as it was there.
pub proof fn lemma_sort_permutes(s: Seq<PlannedSplit>)
    ensures
        sort_by_time(s).to_multiset() == s.to_multiset(),
    decreases s.len(),
{
    broadcast use vstd::seq_lib::to_multiset_build;

    if s.len() > 0 {
        lemma_sort_ascends(s.drop_last());
        lemma_sort_permutes(s.drop_last());
        lemma_insert_by_time(sort_by_time(s.drop_last()), s.last(), 0);
        assert(s =~= s.drop_last().push(s.last()));
    } else {
        assert(sort_by_time(s) =~= s);
    }
}

/// Sorting is stable: the splits at one time come out in the order in which they went in.
pub proof fn lemma_sort_stable(s: Seq<PlannedSplit>, t: u64)
    ensures
        at_time(sort_by_time(s), t) == at_time(s, t),
    decreases s.len(),
{
    let keep = |p: PlannedSplit| p.point.time == t;
    if s.len() > 0 {
        lemma_sort_ascends(s.drop_last());
        lemma_sort_stable(s.drop_last(), t);
        lemma_insert_by_time(sort_by_time(s.drop_last()), s.last(), t);
        s.drop_last().lemma_filter_push(s.last(), keep);
        assert(s =~= s.drop_last().push(s.last()));
    } else {
        assert(sort_by_time(s) =~= s);
    }
}

/// Sorts the splits by time, keeping the order of those at one time.
pub fn sort_splits(input: &Vec<PlannedSplit>) -> (r: Vec<PlannedSplit>)
    ensures
        r@ == sort_by_time(input@),
        sorted_by_time(r@),
        r@.len() == input@.len(),
{
    let mut out: Vec<PlannedSplit> = Vec::new();
    let mut i: usize = 0;
    while i < input.len()
        invariant
            i <= input.len(),
            out@ == sort_by_time(input@.take(i as int)),
            out@.len() == i,
        decreases input.len() - i,
    {
        let x = input[i];
        let mut pos: usize = out.len();
        while pos > 0 && out[pos - 1].point.time > x.point.time
            invariant
                pos <= out.len(),
                forall|j: int| pos <= j < out.len() ==> out@[j].point.time > x.point.time,
            decreases pos,
        {
            pos -= 1;
        }
        proof {
            lemma_insert_at(out@, x, pos as int);
            assert(input@.take(i + 1).drop_last() =~= input@.take(i as int));
        }
        out.insert(pos, x);
        i += 1;
    }
    proof {
        assert(input@.take(i as int) =~= input@);
        lemma_sort_ascends(input@);
    }
    out
}

/// The split that a measured range stands for: its quietest audible moment,
/// with the delay of the range. Nothing where no measurement counts.
pub open spec fn range_split(m: MeasuredRange, threshold: i64) -> Option<PlannedSplit> {
    match quietest(m.samples@, m.range.start, m.range.end, threshold) {
        Some(best) => Some(
            PlannedSplit {
                point: SplitPoint { time: best.time, delay: m.range.delay },
                source: SplitSource::Range { start: m.range.start, end: m.range.end },
            },
        ),
        None => None,
    }
}

/// The splits before they are sorted: the given ones, then one for each range, in the order given.
pub open spec fn unsorted_entries(explicit: Seq<SplitPoint>, ranges: Seq<MeasuredRange>, threshold: i64) -> Seq<
    PlannedSplit,
> {
    Seq::new(
        explicit.len() + ranges.len(),
        |i: int|
            if i < explicit.len() {
                PlannedSplit { point: explicit[i], source: SplitSource::Explicit }
            } else {
                range_split(ranges[i - explicit.len()], threshold)->0
            },
    )
}

/// Merges the given splits with the quietest moments of the measured ranges
/// into one plan in the order of time.
///
/// Fails on the first range, in the order given, in which no measurement is
/// louder than the threshold.
pub fn resolve(
    explicit: &Vec<SplitPoint>,
    ranges: &Vec<MeasuredRange>,
    initial_delay: i64,
    silence_threshold: i64,
) -> (r: Result<SplitPlan, FFmpegError>)
    ensures
        match r {
            Ok(plan) => {
                &&& forall|k: int|
                    0 <= k < ranges@.len() ==> range_split(#[trigger] ranges@[k], silence_threshold) is Some
                &&& plan.wf()
                &&& plan.entries() == sort_by_time(
                    unsorted_entries(explicit@, ranges@, silence_threshold),
                )
                &&& plan.splits@.len() == explicit@.len() + ranges@.len()
                &&& plan.delays@.len() == plan.splits@.len() + 1
                &&& plan.delays@[0] == initial_delay
            },
            Err(e) => exists|k: int|
                {
                    &&& 0 <= k < ranges@.len()
                    &&& range_split(#[trigger] ranges@[k], silence_threshold) is None
                    &&& forall|j: int|
                        0 <= j < k ==> range_split(#[trigger] ranges@[j], silence_threshold) is Some
                    &&& e == FFmpegError::QuietPointNotFound {
                        start: ranges@[k].range.start,
                        end: ranges@[k].range.end,
                        threshold: silence_threshold,
                    }
                },
        },
{
    let ghost target = unsorted_entries(explicit@, ranges@, silence_threshold);
    let mut entries: Vec<PlannedSplit> = Vec::new();
    let mut i: usize = 0;
    while i < explicit.len()
        invariant
            i <= explicit.len(),
            target == unsorted_entries(explicit@, ranges@, silence_threshold),
            entries@ == target.take(i as int),
        decreases explicit.len() - i,
    {
        entries.push(PlannedSplit { point: explicit[i], source: SplitSource::Explicit });
        assert(entries@ =~= target.take(i + 1));
        i += 1;
    }
    let mut k: usize = 0;
    while k < ranges.len()
        invariant
            k <= ranges.len(),
            target == unsorted_entries(explicit@, ranges@, silence_threshold),
            entries@ == target.take(explicit.len() + k),
            forall|j: int| 0 <= j < k ==> range_split(#[trigger] ranges@[j], silence_threshold) is Some,
        decreases ranges.len() - k,
    {
        let m = &ranges[k];
        match quietest_point(&m.samples, m.range.start, m.range.end, silence_threshold) {
            Some(best) => {
                entries.push(
                    PlannedSplit {
                        point: SplitPoint { time: best.time, delay: m.range.delay },
                        source: SplitSource::Range { start: m.range.start, end: m.range.end },
                    },
                );
                assert(entries@ =~= target.take(explicit.len() + k + 1));
            },
            None => {
                return Err(
                    FFmpegError::QuietPointNotFound {
                        start: m.range.start,
                        end: m.range.end,
                        threshold: silence_threshold,
                    },
                );
            },
        }
        k += 1;
    }
    assert(entries@ =~= target);
    let sorted = sort_splits(&entries);
    let mut splits: Vec<SplitPoint> = Vec::new();
    let mut sources: Vec<SplitSource> = Vec::new();
    let mut delays: Vec<i64> = Vec::new();
    delays.push(initial_delay);
    let mut n: usize = 0;
    while n < sorted.len()
        invariant
            n <= sorted.len(),
            splits@.len() == n,
            sources@.len() == n,
            delays@.len() == n + 1,
            delays@[0] == initial_delay,
            forall|j: int| 0 <= j < n ==> splits@[j] == sorted@[j].point,
            forall|j: int| 0 <= j < n ==> sources@[j] == sorted@[j].source,
            forall|j: int| 0 <= j < n ==> delays@[j + 1] == sorted@[j].point.delay,
        decreases sorted.len() - n,
    {
        let e = sorted[n];
        splits.push(e.point);
        sources.push(e.source);
        delays.push(e.point.delay);
        n += 1;
    }
    let plan = SplitPlan { splits, sources, delays };
    proof {
        assert(plan.entries() =~= sorted@);
        assert(times_ascend(plan.splits@)) by {
            assert forall|a: int, b: int| 0 <= a <= b < plan.splits@.len() implies plan.splits@[a].time
                <= plan.splits@[b].time by {
                assert(sorted@[a].point.time <= sorted@[b].point.time);
            }
        }
    }
    Ok(plan)
}

impl SplitPlan {
    /// The times of the splits, in the order of the plan.
    pub fn times(&self) -> (r: Vec<u64>)
        ensures
            r@.len() == self.splits@.len(),
            forall|i: int| 0 <= i < r@.len() ==> r@[i] == self.splits@[i].time,
    {
        let mut out: Vec<u64> = Vec::new();
        let mut i: usize = 0;
        while i < self.splits.len()
            invariant
                i <= self.splits.len(),
                out@.len() == i,
                forall|j: int| 0 <= j < i ==> out@[j] == self.splits@[j].time,
            decreases self.splits.len() - i,
        {
            out.push(self.splits[i].time);
            i += 1;
        }
        out
    }
}

} // verus!
