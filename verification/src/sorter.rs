//! Time ordering of event batches and the merge step that combines two
//! time-sorted event streams into one.

use vstd::prelude::*;
use crate::event::Event;
use vstd::seq_lib::lemma_multiset_commutative;

verus! {

broadcast use vstd::seq_lib::group_to_multiset_ensures;

/// Events in non-decreasing time order.
pub open spec fn sorted_by_time(s: Seq<Event>) -> bool {
    forall|i: int, j: int| 0 <= i <= j < s.len() ==> s[i].time.0 <= s[j].time.0
}

/// Every event of `a` is no later than every event of `b`.
pub open spec fn all_before(a: Seq<Event>, b: Seq<Event>) -> bool {
    forall|i: int, j: int| 0 <= i < a.len() && 0 <= j < b.len() ==> a[i].time.0 <= b[j].time.0
}

/// `s` with `e` inserted after every event at its end that is later than
/// `e`: the place an insertion scan from the back finds.
pub open spec fn insert_by_time(s: Seq<Event>, e: Event) -> Seq<Event>
    decreases s.len(),
{
    if s.len() == 0 || s.last().time.0 <= e.time.0 {
        s.push(e)
    } else {
        insert_by_time(s.drop_last(), e).push(s.last())
    }
}

/// Stable sort by time: each event in turn inserted into the sorted
/// events before it, after those no later than it.
pub open spec fn sort_seq(s: Seq<Event>) -> Seq<Event>
    decreases s.len(),
{
    if s.len() == 0 {
        seq![]
    } else {
        insert_by_time(sort_seq(s.drop_last()), s.last())
    }
}

proof fn lemma_insert_sorted(s: Seq<Event>, e: Event)
    requires
        sorted_by_time(s),
    ensures
        sorted_by_time(insert_by_time(s, e)),
        insert_by_time(s, e).to_multiset() == s.to_multiset().insert(e),
    decreases s.len(),
{
    if s.len() == 0 || s.last().time.0 <= e.time.0 {
        assert(s.push(e).to_multiset() == s.to_multiset().insert(e));
    } else {
        let d = s.drop_last();
        let r = insert_by_time(d, e);
        assert(sorted_by_time(d));
        lemma_insert_sorted(d, e);
        assert forall|i: int| 0 <= i < r.len() implies r[i].time.0 <= s.last().time.0 by {
            assert(r.to_multiset().count(r[i]) > 0);
            if r[i] != e {
                assert(d.to_multiset().count(r[i]) > 0);
                assert(d.contains(r[i]));
                let j = choose|j: int| 0 <= j < d.len() && d[j] == r[i];
                assert(s[j] == d[j]);
            }
        }
        assert(s =~= d.push(s.last()));
        assert(r.push(s.last()).to_multiset() == r.to_multiset().insert(s.last()));
        assert(s.to_multiset() == d.to_multiset().insert(s.last()));
        assert(r.push(s.last()).to_multiset() =~= s.to_multiset().insert(e));
    }
}

/// Sorting gives the events in time order, each as often as before.
pub proof fn law_sort_seq_sorted_permutation(s: Seq<Event>)
    ensures
        sorted_by_time(sort_seq(s)),
        sort_seq(s).to_multiset() == s.to_multiset(),
    decreases s.len(),
{
    if s.len() == 0 {
        assert(sort_seq(s).to_multiset() =~= s.to_multiset());
    } else {
        law_sort_seq_sorted_permutation(s.drop_last());
        lemma_insert_sorted(sort_seq(s.drop_last()), s.last());
        assert(s =~= s.drop_last().push(s.last()));
        assert(s.to_multiset() == s.drop_last().to_multiset().insert(s.last()));
    }
}

proof fn lemma_insert_at(s: Seq<Event>, e: Event, k: int)
    requires
        0 <= k <= s.len(),
        forall|i: int| k <= i < s.len() ==> s[i].time.0 > e.time.0,
        k == 0 || s[k - 1].time.0 <= e.time.0,
    ensures
        insert_by_time(s, e) == s.insert(k, e),
    decreases s.len(),
{
    if s.len() == 0 {
        assert(s.insert(k, e) =~= s.push(e));
    } else if s.last().time.0 <= e.time.0 {
        assert(k == s.len());
        assert(s.insert(k, e) =~= s.push(e));
    } else {
        assert(k < s.len());
        lemma_insert_at(s.drop_last(), e, k);
        assert(s.drop_last().insert(k, e).push(s.last()) =~= s.insert(k, e));
    }
}

/// Position in the sorted `out` at which `ev` goes after all events that
/// are no later than it (which keeps events of equal time in arrival
/// order).
fn insert_position(out: &Vec<Event>, ev: &Event) -> (k: usize)
    requires
        sorted_by_time(out@),
    ensures
        k <= out@.len(),
        forall|i: int| 0 <= i < k ==> out@[i].time.0 <= ev.time.0,
        forall|i: int| k <= i < out@.len() ==> out@[i].time.0 > ev.time.0,
{
    let mut k = out.len();
    while k > 0 && out[k - 1].time.0 > ev.time.0
        invariant
            k <= out@.len(),
            sorted_by_time(out@),
            forall|i: int| k <= i < out@.len() ==> out@[i].time.0 > ev.time.0,
        decreases k,
    {
        k = k - 1;
    }
    k
}

/// Sorts events by time; events of equal time keep their order.
pub fn sort_by_time(v: &mut Vec<Event>)
    ensures
        final(v)@ == sort_seq(old(v)@),
        sorted_by_time(final(v)@),
        final(v)@.to_multiset() == old(v)@.to_multiset(),
        final(v)@.len() == old(v)@.len(),
{
    let mut out: Vec<Event> = Vec::new();
    let mut i: usize = 0;
    while i < v.len()
        invariant
            i <= v@.len(),
            v@ == old(v)@,
            sorted_by_time(out@),
            out@.to_multiset() == v@.subrange(0, i as int).to_multiset(),
            out@.len() == i,
            out@ == sort_seq(v@.subrange(0, i as int)),
        decreases v@.len() - i,
    {
        let ev = v[i];
        let k = insert_position(&out, &ev);
        let ghost before = out@;
        out.insert(k, ev);
        proof {
            assert(out@ == before.insert(k as int, ev));
            assert(v@.subrange(0, i + 1) =~= v@.subrange(0, i as int).push(ev));
            assert(v@.subrange(0, i + 1).drop_last() =~= v@.subrange(0, i as int));
            lemma_insert_at(before, ev, k as int);
            assert forall|a: int, b: int| 0 <= a <= b < out@.len() implies out@[a].time.0
                <= out@[b].time.0 by {
                if a < k && b < k {
                } else if a < k && b == k {
                } else if a < k {
                    assert(out@[b] == before[b - 1]);
                } else if a == k && b == k {
                } else if a == k {
                    assert(out@[b] == before[b - 1]);
                } else {
                    assert(out@[a] == before[a - 1]);
                    assert(out@[b] == before[b - 1]);
                }
            }
        }
        i = i + 1;
    }
    proof {
        assert(v@.subrange(0, v@.len() as int) =~= v@);
    }
    *v = out;
}

/// What a merge step of the buffers `b1` and `b2` gives, with `k1` and
/// `k2` kept: the buffer whose last event is earlier (the second on a tie)
/// is taken whole, with the events of the other buffer earlier than that
/// last event, sorted; the rest of the other buffer is kept.
pub open spec fn merge_outcome(b1: Seq<Event>, b2: Seq<Event>, batch: Seq<Event>, k1: Seq<Event>, k2: Seq<Event>) -> bool {
    if b1.last().time.0 < b2.last().time.0 {
        &&& batch == sort_seq(b1 + b2.subrange(0, b2.len() - k2.len()))
        &&& forall|i: int| 0 <= i < b2.len() - k2.len() ==> b2[i].time.0 < b1.last().time.0
        &&& forall|i: int| 0 <= i < k2.len() ==> k2[i].time.0 >= b1.last().time.0
        &&& k1.len() == 0
        &&& k2.len() <= b2.len()
        &&& k2 == b2.subrange(b2.len() - k2.len(), b2.len() as int)
    } else {
        &&& batch == sort_seq(b2 + b1.subrange(0, b1.len() - k1.len()))
        &&& forall|i: int| 0 <= i < b1.len() - k1.len() ==> b1[i].time.0 < b2.last().time.0
        &&& forall|i: int| 0 <= i < k1.len() ==> k1[i].time.0 >= b2.last().time.0
        &&& k2.len() == 0
        &&& k1.len() <= b1.len()
        &&& k1 == b1.subrange(b1.len() - k1.len(), b1.len() as int)
    }
}

/// One half of the merge law: with `full` taken whole and the events of
/// `other` earlier than its last event, everything handed out is no later
/// than what `full`'s stream delivers later, nor than what stays of
/// `other` or comes after it.
proof fn lemma_taken_precedes(full: Seq<Event>, other: Seq<Event>, batch: Seq<Event>, kept: Seq<Event>, later_full: Seq<Event>, later_other: Seq<Event>)
    requires
        full.len() > 0,
        other.len() > 0,
        sorted_by_time(full + later_full),
        sorted_by_time(other + later_other),
        full.last().time.0 <= other.last().time.0,
        batch == sort_seq(full + other.subrange(0, other.len() - kept.len())),
        forall|i: int| 0 <= i < other.len() - kept.len() ==> other[i].time.0 < full.last().time.0,
        forall|i: int| 0 <= i < kept.len() ==> kept[i].time.0 >= full.last().time.0,
        kept.len() <= other.len(),
    ensures
        all_before(batch, later_full),
        all_before(batch, kept + later_other),
{
    let c = full.last().time.0;
    let taken = full + other.subrange(0, other.len() - kept.len());
    law_sort_seq_sorted_permutation(taken);
    assert forall|i: int| 0 <= i < batch.len() implies batch[i].time.0 <= c by {
        assert(batch.to_multiset().count(batch[i]) > 0);
        assert(taken.to_multiset().count(batch[i]) > 0);
        assert(taken.contains(batch[i]));
        let j = choose|j: int| 0 <= j < taken.len() && taken[j] == batch[i];
        if j < full.len() {
            assert((full + later_full)[j] == full[j]);
            assert((full + later_full)[full.len() - 1] == full.last());
        }
    }
    assert forall|j: int| 0 <= j < later_full.len() implies later_full[j].time.0 >= c by {
        assert((full + later_full)[full.len() + j] == later_full[j]);
        assert((full + later_full)[full.len() - 1] == full.last());
    }
    assert forall|j: int| 0 <= j < (kept + later_other).len() implies (kept + later_other)[j].time.0 >= c by {
        if j >= kept.len() {
            assert((other + later_other)[other.len() + (j - kept.len())] == later_other[j - kept.len()]);
            assert((other + later_other)[other.len() - 1] == other.last());
        }
    }
}

/// Merging keeps the combined stream in time order: where each stream is
/// sorted together with what it delivers later (`later1`, `later2`), every
/// event a merge step hands out is no later than any event still buffered
/// or yet to come on either stream.
pub proof fn law_merge_batch_precedes_rest(
    b1: Seq<Event>,
    b2: Seq<Event>,
    batch: Seq<Event>,
    k1: Seq<Event>,
    k2: Seq<Event>,
    later1: Seq<Event>,
    later2: Seq<Event>,
)
    requires
        b1.len() > 0,
        b2.len() > 0,
        sorted_by_time(b1 + later1),
        sorted_by_time(b2 + later2),
        merge_outcome(b1, b2, batch, k1, k2),
    ensures
        all_before(batch, k1 + later1),
        all_before(batch, k2 + later2),
{
    if b1.last().time.0 < b2.last().time.0 {
        lemma_taken_precedes(b1, b2, batch, k2, later1, later2);
        assert(k1 + later1 =~= later1);
    } else {
        lemma_taken_precedes(b2, b1, batch, k1, later2, later1);
        assert(k2 + later2 =~= later2);
    }
}

/// One step of merging two time-sorted streams whose newest buffered
/// events are `buf1` and `buf2` (both non-empty): the buffer whose last
/// event is earlier is complete up to that time, so it is taken, together
/// with the events of the other buffer earlier than its last event, and
/// handed back sorted. What stays in the other buffer is no earlier than
/// anything handed back.
pub fn merge_step(buf1: &mut Vec<Event>, buf2: &mut Vec<Event>) -> (batch: Vec<Event>)
    requires
        old(buf1)@.len() > 0,
        old(buf2)@.len() > 0,
        sorted_by_time(old(buf1)@),
        sorted_by_time(old(buf2)@),
    ensures
        sorted_by_time(batch@),
        batch@.to_multiset().add(final(buf1)@.to_multiset()).add(final(buf2)@.to_multiset())
            == old(buf1)@.to_multiset().add(old(buf2)@.to_multiset()),
        all_before(batch@, final(buf1)@),
        all_before(batch@, final(buf2)@),
        merge_outcome(old(buf1)@, old(buf2)@, batch@, final(buf1)@, final(buf2)@),
{
    let last1 = buf1[buf1.len() - 1].time.0;
    let last2 = buf2[buf2.len() - 1].time.0;
    if last1 < last2 {
        let batch = take_until(buf1, buf2);
        batch
    } else {
        let batch = take_until(buf2, buf1);
        proof {
            lemma_add_commutes(batch@.to_multiset(), final(buf2)@.to_multiset(), final(buf1)@.to_multiset(), old(buf2)@.to_multiset(), old(buf1)@.to_multiset());
        }
        batch
    }
}

proof fn lemma_add_commutes(
    b: vstd::multiset::Multiset<Event>,
    x: vstd::multiset::Multiset<Event>,
    y: vstd::multiset::Multiset<Event>,
    ox: vstd::multiset::Multiset<Event>,
    oy: vstd::multiset::Multiset<Event>,
)
    requires
        b.add(x).add(y) == ox.add(oy),
    ensures
        b.add(y).add(x) == oy.add(ox),
{
    assert(b.add(y).add(x) =~= b.add(x).add(y));
    assert(oy.add(ox) =~= ox.add(oy));
}

/// Takes all of `full` plus the events of `other` earlier than the last
/// event of `full`, sorted.
fn take_until(full: &mut Vec<Event>, other: &mut Vec<Event>) -> (batch: Vec<Event>)
    requires
        old(full)@.len() > 0,
        sorted_by_time(old(full)@),
        sorted_by_time(old(other)@),
    ensures
        sorted_by_time(batch@),
        batch@.to_multiset().add(final(full)@.to_multiset()).add(final(other)@.to_multiset())
            == old(full)@.to_multiset().add(old(other)@.to_multiset()),
        final(full)@.len() == 0,
        all_before(batch@, final(other)@),
        final(other)@.len() <= old(other)@.len(),
        final(other)@ == old(other)@.subrange(
            old(other)@.len() - final(other)@.len(),
            old(other)@.len() as int,
        ),
        batch@ == sort_seq(old(full)@ + old(other)@.subrange(0, old(other)@.len() - final(other)@.len())),
        forall|i: int| 0 <= i < old(other)@.len() - final(other)@.len() ==> old(other)@[i].time.0 < old(full)@.last().time.0,
        forall|i: int| 0 <= i < final(other)@.len() ==> final(other)@[i].time.0 >= old(full)@.last().time.0,
{
    let last = full[full.len() - 1].time.0;
    // number of leading events of `other` that are earlier than `last`
    let mut cut = other.len();
    while cut > 0 && other[cut - 1].time.0 >= last
        invariant
            cut <= other@.len(),
            forall|i: int| cut <= i < other@.len() ==> other@[i].time.0 >= last,
        decreases cut,
    {
        cut = cut - 1;
    }
    let ghost o = other@;
    let ghost f = full@;
    let rest = other.split_off(cut);
    let mut batch: Vec<Event> = Vec::new();
    std::mem::swap(&mut batch, full);
    let mut moved: Vec<Event> = Vec::new();
    std::mem::swap(&mut moved, other);
    *other = rest;
    let mut j: usize = 0;
    while j < moved.len()
        invariant
            j <= moved@.len(),
            moved@ == o.subrange(0, cut as int),
            batch@ == f + moved@.subrange(0, j as int),
        decreases moved@.len() - j,
    {
        batch.push(moved[j]);
        proof {
            assert(moved@.subrange(0, j + 1) =~= moved@.subrange(0, j as int).push(moved@[j as int]));
        }
        j = j + 1;
    }
    proof {
        assert(moved@.subrange(0, j as int) =~= moved@);
        assert(o =~= moved@ + other@);
        vstd::seq_lib::lemma_multiset_commutative(f, moved@);
        vstd::seq_lib::lemma_multiset_commutative(moved@, other@);
        assert(full@.to_multiset() =~= vstd::multiset::Multiset::empty());
        // every event kept back is no earlier than `last`, and every event
        // taken is no later than `last`
        assert forall|a: int| 0 <= a < batch@.len() implies batch@[a].time.0 <= last by {
            if a < f.len() {
                assert(f[a].time.0 <= f[f.len() - 1].time.0);
            } else {
                assert(batch@[a] == o[a - f.len()]);
            }
        }
    }
    let ghost unsorted = batch@;
    sort_by_time(&mut batch);
    proof {
        assert(unsorted == f + o.subrange(0, o.len() - other@.len()));
        assert forall|i: int| 0 <= i < cut implies o[i].time.0 < last by {
            assert(o[i].time.0 <= o[cut - 1].time.0);
        }
        assert forall|a: int| 0 <= a < batch@.len() implies batch@[a].time.0 <= last by {
            assert(batch@.to_multiset().count(batch@[a]) > 0);
            assert(unsorted.to_multiset().count(batch@[a]) > 0);
            assert(unsorted.contains(batch@[a]));
        }
        assert(batch@.to_multiset().add(full@.to_multiset()).add(other@.to_multiset())
            =~= f.to_multiset().add(o.to_multiset()));
    }
    batch
}

} // verus!

verus! {

/// One of the two streams a sorter merges.
#[derive(Debug, Clone, Copy, PartialEq, Eq, Structural)]
pub enum Side {
    First,
    Second,
}

impl Side {
    pub open spec fn spec_other(self) -> Side {
        match self {
            Side::First => Side::Second,
            Side::Second => Side::First,
        }
    }
}

/// What arrives on a stream: a batch of events, the end of a run, or
/// anything else, which is passed on as it is.
pub enum StreamItem<T> {
    Events(Vec<Event>),
    EndOfRun,
    Other(T),
}

/// A sorter that merges two time-sorted event streams into one: the
/// newest batch of each stream, and whether one stream has ended its run
/// and the other is being drained until it ends its run too.
pub struct SorterState {
    pub buf1: Vec<Event>,
    pub buf2: Vec<Event>,
    /// The stream being drained after the other one ended its run.
    pub draining: Option<Side>,
}

impl SorterState {
    pub fn new() -> (s: SorterState)
        ensures
            s.buf1@.len() == 0,
            s.buf2@.len() == 0,
            s.draining is None,
    {
        SorterState { buf1: Vec::new(), buf2: Vec::new(), draining: None }
    }

    /// The stream to wait on: the one being drained, else the first empty
    /// buffer's stream; `None` when both buffers hold events and a merge
    /// step is due.
    pub fn next_read(&self) -> (r: Option<Side>)
        ensures
            self.draining is Some ==> r == self.draining,
            self.draining is None ==> r == (if self.buf1@.len() == 0 {
                Some(Side::First)
            } else if self.buf2@.len() == 0 {
                Some(Side::Second)
            } else {
                None::<Side>
            }),
    {
        match self.draining {
            Some(side) => Some(side),
            None => if self.buf1.len() == 0 {
                Some(Side::First)
            } else if self.buf2.len() == 0 {
                Some(Side::Second)
            } else {
                None
            },
        }
    }

    /// An item arrived on `side`.  Events fill that stream's buffer; other
    /// items are passed on.  The end of a run on one stream sends the other
    /// stream's buffered events and drains that stream, passing on all it
    /// sends, until its end of run, which is passed on once.
    pub fn receive<T>(&mut self, side: Side, item: StreamItem<T>) -> (out: Vec<StreamItem<T>>)
        ensures
            match (old(self).draining, item) {
                (Some(d), StreamItem::EndOfRun) => {
                    &&& out@.len() == 1 && out@[0] is EndOfRun
                    &&& final(self).draining is None
                    &&& final(self).buf1@ == old(self).buf1@
                    &&& final(self).buf2@ == old(self).buf2@
                },
                (Some(d), other) => {
                    &&& out@ == seq![other]
                    &&& *final(self) == *old(self)
                },
                (None, StreamItem::Events(evs)) => {
                    &&& out@.len() == 0
                    &&& final(self).draining is None
                    &&& side == Side::First ==> final(self).buf1@ == evs@ && final(self).buf2@ == old(self).buf2@
                    &&& side == Side::Second ==> final(self).buf2@ == evs@ && final(self).buf1@ == old(self).buf1@
                },
                (None, StreamItem::EndOfRun) => {
                    &&& out@.len() == 1
                    &&& out@[0] matches StreamItem::Events(v) && v@ == (if side == Side::First {
                        old(self).buf2@
                    } else {
                        old(self).buf1@
                    })
                    &&& final(self).draining == Some(side.spec_other())
                    &&& side == Side::First ==> final(self).buf2@.len() == 0 && final(self).buf1@ == old(self).buf1@
                    &&& side == Side::Second ==> final(self).buf1@.len() == 0 && final(self).buf2@ == old(self).buf2@
                },
                (None, other) => {
                    &&& out@ == seq![other]
                    &&& *final(self) == *old(self)
                },
            },
    {
        let mut out: Vec<StreamItem<T>> = Vec::new();
        match self.draining {
            Some(_) => {
                match item {
                    StreamItem::EndOfRun => {
                        self.draining = None;
                        out.push(StreamItem::EndOfRun);
                    },
                    other => {
                        out.push(other);
                    },
                }
            },
            None => {
                match item {
                    StreamItem::Events(evs) => {
                        match side {
                            Side::First => self.buf1 = evs,
                            Side::Second => self.buf2 = evs,
                        }
                    },
                    StreamItem::EndOfRun => {
                        let mut taken: Vec<Event> = Vec::new();
                        match side {
                            Side::First => {
                                std::mem::swap(&mut taken, &mut self.buf2);
                                self.draining = Some(Side::Second);
                            },
                            Side::Second => {
                                std::mem::swap(&mut taken, &mut self.buf1);
                                self.draining = Some(Side::First);
                            },
                        }
                        out.push(StreamItem::Events(taken));
                    },
                    other => {
                        out.push(other);
                    },
                }
            },
        }
        out
    }

    /// A merge step, when both buffers hold events: the batch to send.
    pub fn merge(&mut self) -> (batch: Vec<Event>)
        requires
            old(self).buf1@.len() > 0,
            old(self).buf2@.len() > 0,
            sorted_by_time(old(self).buf1@),
            sorted_by_time(old(self).buf2@),
        ensures
            final(self).draining == old(self).draining,
            sorted_by_time(batch@),
            batch@.to_multiset().add(final(self).buf1@.to_multiset()).add(final(self).buf2@.to_multiset())
                == old(self).buf1@.to_multiset().add(old(self).buf2@.to_multiset()),
            final(self).buf1@.len() == 0 || final(self).buf2@.len() == 0,
            all_before(batch@, final(self).buf1@),
            all_before(batch@, final(self).buf2@),
            merge_outcome(old(self).buf1@, old(self).buf2@, batch@, final(self).buf1@, final(self).buf2@),
    {
        let mut b1: Vec<Event> = Vec::new();
        let mut b2: Vec<Event> = Vec::new();
        std::mem::swap(&mut b1, &mut self.buf1);
        std::mem::swap(&mut b2, &mut self.buf2);
        let batch = merge_step(&mut b1, &mut b2);
        self.buf1 = b1;
        self.buf2 = b2;
        batch
    }
}


/// What a sorter and its two streams keep through a run: `out` holds the
/// events sent on so far, `b1` and `b2` the buffers, `rest1` and `rest2`
/// the events the streams will still deliver, and `total` all events of
/// the run. What was sent is in time order and no later than anything
/// still to come; each stream is in time order; and no event is lost or
/// doubled.
pub open spec fn sorter_inv(
    out: Seq<Event>,
    b1: Seq<Event>,
    b2: Seq<Event>,
    rest1: Seq<Event>,
    rest2: Seq<Event>,
    total: vstd::multiset::Multiset<Event>,
) -> bool {
    &&& sorted_by_time(out)
    &&& sorted_by_time(b1 + rest1)
    &&& sorted_by_time(b2 + rest2)
    &&& all_before(out, b1 + rest1)
    &&& all_before(out, b2 + rest2)
    &&& out.to_multiset().add((b1 + rest1).to_multiset()).add((b2 + rest2).to_multiset()) == total
}

proof fn lemma_sorted_concat(a: Seq<Event>, b: Seq<Event>)
    requires
        sorted_by_time(a),
        sorted_by_time(b),
        all_before(a, b),
    ensures
        sorted_by_time(a + b),
{
    assert forall|i: int, j: int| 0 <= i <= j < (a + b).len() implies (a + b)[i].time.0 <= (a + b)[j].time.0 by {
        if j < a.len() {
        } else if i >= a.len() {
            assert((a + b)[i] == b[i - a.len()]);
            assert((a + b)[j] == b[j - a.len()]);
        } else {
            assert((a + b)[j] == b[j - a.len()]);
        }
    }
}

/// An event of a sequence is no earlier than what was sent before it.
proof fn lemma_before_member(out: Seq<Event>, s: Seq<Event>, x: Event)
    requires
        all_before(out, s),
        s.contains(x),
    ensures
        forall|i: int| 0 <= i < out.len() ==> out[i].time.0 <= x.time.0,
{
    let j = choose|j: int| 0 <= j < s.len() && s[j] == x;
    assert forall|i: int| 0 <= i < out.len() implies out[i].time.0 <= x.time.0 by {
        assert(out[i].time.0 <= s[j].time.0);
    }
}

/// At the start of a run, with streams delivering `e1` and `e2`, each in
/// time order, nothing is buffered and nothing sent.
pub proof fn law_sorter_start(e1: Seq<Event>, e2: Seq<Event>)
    requires
        sorted_by_time(e1),
        sorted_by_time(e2),
    ensures
        sorter_inv(seq![], seq![], seq![], e1, e2, (e1 + e2).to_multiset()),
{
    assert(Seq::<Event>::empty() + e1 =~= e1);
    assert(Seq::<Event>::empty() + e2 =~= e2);
    lemma_multiset_commutative(e1, e2);
    assert(Seq::<Event>::empty().to_multiset() =~= vstd::multiset::Multiset::empty());
    assert(Seq::<Event>::empty().to_multiset().add(e1.to_multiset()) =~= e1.to_multiset());
}

/// A batch arriving into an empty buffer changes nothing of what is kept:
/// the events move from the stream into the buffer.
pub proof fn law_sorter_batch_arrives(
    out: Seq<Event>,
    b2: Seq<Event>,
    evs: Seq<Event>,
    later1: Seq<Event>,
    rest2: Seq<Event>,
    total: vstd::multiset::Multiset<Event>,
)
    requires
        sorter_inv(out, seq![], b2, evs + later1, rest2, total),
    ensures
        sorter_inv(out, evs, b2, later1, rest2, total),
{
    assert(Seq::<Event>::empty() + (evs + later1) =~= evs + later1);
}

/// A merge step keeps it: the batch sent (as `SorterState::merge` gives
/// it) is in time order after what was sent before and before all that is
/// still buffered or to come.
pub proof fn law_sorter_merge_keeps(
    out: Seq<Event>,
    b1: Seq<Event>,
    b2: Seq<Event>,
    rest1: Seq<Event>,
    rest2: Seq<Event>,
    total: vstd::multiset::Multiset<Event>,
    batch: Seq<Event>,
    k1: Seq<Event>,
    k2: Seq<Event>,
)
    requires
        sorter_inv(out, b1, b2, rest1, rest2, total),
        b1.len() > 0,
        b2.len() > 0,
        sorted_by_time(batch),
        batch.to_multiset().add(k1.to_multiset()).add(k2.to_multiset()) == b1.to_multiset().add(b2.to_multiset()),
        merge_outcome(b1, b2, batch, k1, k2),
    ensures
        sorter_inv(out + batch, k1, k2, rest1, rest2, total),
{
    lemma_multiset_commutative(b1, rest1);
    lemma_multiset_commutative(b2, rest2);
    lemma_multiset_commutative(k1, rest1);
    lemma_multiset_commutative(k2, rest2);
    lemma_multiset_commutative(out, batch);
    lemma_multiset_commutative(b1, b2);
    // k1 and k2 are what stays of b1 and b2: suffixes of them
    let s1 = b1 + rest1;
    let s2 = b2 + rest2;
    assert(k1 + rest1 =~= s1.subrange(b1.len() - k1.len(), s1.len() as int));
    assert(k2 + rest2 =~= s2.subrange(b2.len() - k2.len(), s2.len() as int));
    assert(sorted_by_time(b1)) by {
        assert forall|i: int, j: int| 0 <= i <= j < b1.len() implies b1[i].time.0 <= b1[j].time.0 by {
            assert(s1[i] == b1[i] && s1[j] == b1[j]);
        }
    }
    assert(sorted_by_time(b2)) by {
        assert forall|i: int, j: int| 0 <= i <= j < b2.len() implies b2[i].time.0 <= b2[j].time.0 by {
            assert(s2[i] == b2[i] && s2[j] == b2[j]);
        }
    }
    law_merge_batch_precedes_rest(b1, b2, batch, k1, k2, rest1, rest2);
    // what was sent before precedes the batch: each batch event was buffered
    assert(all_before(out, batch)) by {
        assert forall|i: int, j: int| 0 <= i < out.len() && 0 <= j < batch.len() implies out[i].time.0 <= batch[j].time.0 by {
            let x = batch[j];
            assert(batch.to_multiset().count(x) > 0);
            assert((b1 + b2).to_multiset().count(x) > 0);
            assert((b1 + b2).contains(x));
            let m = choose|m: int| 0 <= m < (b1 + b2).len() && (b1 + b2)[m] == x;
            if m < b1.len() {
                assert(s1[m] == x);
            } else {
                assert(s2[m - b1.len()] == x);
            }
        }
    }
    lemma_sorted_concat(out, batch);
    assert(all_before(out + batch, k1 + rest1)) by {
        assert forall|i: int, j: int| 0 <= i < (out + batch).len() && 0 <= j < (k1 + rest1).len()
            implies (out + batch)[i].time.0 <= (k1 + rest1)[j].time.0 by {
            assert((k1 + rest1)[j] == s1[b1.len() - k1.len() + j]);
            if i >= out.len() {
                assert((out + batch)[i] == batch[i - out.len()]);
            }
        }
    }
    assert(all_before(out + batch, k2 + rest2)) by {
        assert forall|i: int, j: int| 0 <= i < (out + batch).len() && 0 <= j < (k2 + rest2).len()
            implies (out + batch)[i].time.0 <= (k2 + rest2)[j].time.0 by {
            assert((k2 + rest2)[j] == s2[b2.len() - k2.len() + j]);
            if i >= out.len() {
                assert((out + batch)[i] == batch[i - out.len()]);
            }
        }
    }
    assert(sorted_by_time(k1 + rest1)) by {
        assert forall|i: int, j: int| 0 <= i <= j < (k1 + rest1).len() implies (k1 + rest1)[i].time.0 <= (k1 + rest1)[j].time.0 by {
            assert((k1 + rest1)[i] == s1[b1.len() - k1.len() + i]);
            assert((k1 + rest1)[j] == s1[b1.len() - k1.len() + j]);
        }
    }
    assert(sorted_by_time(k2 + rest2)) by {
        assert forall|i: int, j: int| 0 <= i <= j < (k2 + rest2).len() implies (k2 + rest2)[i].time.0 <= (k2 + rest2)[j].time.0 by {
            assert((k2 + rest2)[i] == s2[b2.len() - k2.len() + i]);
            assert((k2 + rest2)[j] == s2[b2.len() - k2.len() + j]);
        }
    }
    assert((out + batch).to_multiset().add((k1 + rest1).to_multiset()).add((k2 + rest2).to_multiset()) =~= total) by {
        broadcast use vstd::multiset::group_multiset_axioms;

        assert forall|x: Event| #[trigger] total.count(x) == (out + batch).to_multiset().add((k1 + rest1).to_multiset()).add(
            (k2 + rest2).to_multiset(),
        ).count(x) by {
            assert(batch.to_multiset().add(k1.to_multiset()).add(k2.to_multiset()).count(x) == b1.to_multiset().add(
                b2.to_multiset(),
            ).count(x));
            assert(batch.to_multiset().add(k1.to_multiset()).count(x) == batch.to_multiset().count(x)
                + k1.to_multiset().count(x));
            assert(batch.to_multiset().add(k1.to_multiset()).add(k2.to_multiset()).count(x) == batch.to_multiset().add(
                k1.to_multiset(),
            ).count(x) + k2.to_multiset().count(x));
            assert(b1.to_multiset().add(b2.to_multiset()).count(x) == b1.to_multiset().count(x) + b2.to_multiset().count(x));
            assert(out.to_multiset().add((b1 + rest1).to_multiset()).count(x) == out.to_multiset().count(x)
                + (b1 + rest1).to_multiset().count(x));
            assert((out + batch).to_multiset().add((k1 + rest1).to_multiset()).count(x) == (out + batch).to_multiset().count(x)
                + (k1 + rest1).to_multiset().count(x));
            assert(total.count(x) == out.to_multiset().count(x) + (b1 + rest1).to_multiset().count(x) + (b2
                + rest2).to_multiset().count(x));
            assert((b1 + rest1).to_multiset().count(x) == b1.to_multiset().count(x) + rest1.to_multiset().count(x));
            assert((b2 + rest2).to_multiset().count(x) == b2.to_multiset().count(x) + rest2.to_multiset().count(x));
            assert((k1 + rest1).to_multiset().count(x) == k1.to_multiset().count(x) + rest1.to_multiset().count(x));
            assert((k2 + rest2).to_multiset().count(x) == k2.to_multiset().count(x) + rest2.to_multiset().count(x));
            assert((out + batch).to_multiset().count(x) == out.to_multiset().count(x) + batch.to_multiset().count(x));
        }
    }
}

/// The end of the run on the first stream, with its buffer empty and
/// nothing more to come on it, keeps it: the other buffer is sent on
/// (as `SorterState::receive` does), and what the other stream delivers
/// afterwards is passed on as it comes.
pub proof fn law_sorter_first_end_keeps(
    out: Seq<Event>,
    b2: Seq<Event>,
    rest2: Seq<Event>,
    total: vstd::multiset::Multiset<Event>,
)
    requires
        sorter_inv(out, seq![], b2, seq![], rest2, total),
    ensures
        sorter_inv(out + b2, seq![], seq![], seq![], rest2, total),
{
    let e = Seq::<Event>::empty();
    let s2 = b2 + rest2;
    assert(e + e =~= e);
    assert(e + rest2 =~= rest2);
    assert(sorted_by_time(b2)) by {
        assert forall|i: int, j: int| 0 <= i <= j < b2.len() implies b2[i].time.0 <= b2[j].time.0 by {
            assert(s2[i] == b2[i] && s2[j] == b2[j]);
        }
    }
    assert(all_before(out, b2)) by {
        assert forall|i: int, j: int| 0 <= i < out.len() && 0 <= j < b2.len() implies out[i].time.0 <= b2[j].time.0 by {
            assert(s2[j] == b2[j]);
        }
    }
    lemma_sorted_concat(out, b2);
    assert(sorted_by_time(rest2)) by {
        assert forall|i: int, j: int| 0 <= i <= j < rest2.len() implies rest2[i].time.0 <= rest2[j].time.0 by {
            assert(s2[b2.len() + i] == rest2[i] && s2[b2.len() + j] == rest2[j]);
        }
    }
    assert(all_before(out + b2, rest2)) by {
        assert forall|i: int, j: int| 0 <= i < (out + b2).len() && 0 <= j < rest2.len()
            implies (out + b2)[i].time.0 <= rest2[j].time.0 by {
            assert(s2[b2.len() + j] == rest2[j]);
            if i >= out.len() {
                assert((out + b2)[i] == b2[i - out.len()]);
                assert(s2[i - out.len()] == b2[i - out.len()]);
            }
        }
    }
    lemma_multiset_commutative(b2, rest2);
    lemma_multiset_commutative(out, b2);
    assert(e.to_multiset() =~= vstd::multiset::Multiset::empty());
    assert((out + b2).to_multiset().add((e + e).to_multiset()).add((e + rest2).to_multiset()) =~= total) by {
        broadcast use vstd::multiset::group_multiset_axioms;

        assert forall|x: Event| #[trigger] total.count(x) == (out + b2).to_multiset().add((e + e).to_multiset()).add(
            (e + rest2).to_multiset(),
        ).count(x) by {
            assert(out.to_multiset().add((e + e).to_multiset()).count(x) == out.to_multiset().count(x)
                + (e + e).to_multiset().count(x));
            assert(total.count(x) == out.to_multiset().count(x) + (e + e).to_multiset().count(x) + (b2
                + rest2).to_multiset().count(x));
            assert((out + b2).to_multiset().add((e + e).to_multiset()).count(x) == (out + b2).to_multiset().count(x)
                + (e + e).to_multiset().count(x));
            assert((b2 + rest2).to_multiset().count(x) == b2.to_multiset().count(x) + rest2.to_multiset().count(x));
            assert((out + b2).to_multiset().count(x) == out.to_multiset().count(x) + b2.to_multiset().count(x));
        }
    }
}

/// While the other stream is drained, a batch it delivers is passed on as
/// it is, and that keeps it.
pub proof fn law_sorter_drained_batch_keeps(
    out: Seq<Event>,
    evs: Seq<Event>,
    later2: Seq<Event>,
    total: vstd::multiset::Multiset<Event>,
)
    requires
        sorter_inv(out, seq![], seq![], seq![], evs + later2, total),
    ensures
        sorter_inv(out + evs, seq![], seq![], seq![], later2, total),
{
    let e = Seq::<Event>::empty();
    assert(e + e =~= e);
    assert(e + (evs + later2) =~= evs + later2);
    assert(e + later2 =~= later2);
    lemma_first_end_shift(out, evs, later2, total);
}

proof fn lemma_first_end_shift(out: Seq<Event>, evs: Seq<Event>, later2: Seq<Event>, total: vstd::multiset::Multiset<Event>)
    requires
        sorter_inv(out, seq![], seq![], seq![], evs + later2, total),
    ensures
        sorter_inv(out + evs, seq![], seq![], seq![], later2, total),
{
    let e = Seq::<Event>::empty();
    assert(e + (evs + later2) =~= (evs + later2));
    assert(sorter_inv(out, seq![], evs, seq![], later2, total)) by {
        assert(evs + later2 =~= (evs + later2));
    }
    law_sorter_first_end_keeps(out, evs, later2, total);
}

/// At the end, once both streams have ended and delivered everything,
/// what was sent on is every event of the run, each as often as it came,
/// in time order.
pub proof fn law_sorter_end(out: Seq<Event>, total: vstd::multiset::Multiset<Event>)
    requires
        sorter_inv(out, seq![], seq![], seq![], seq![], total),
    ensures
        sorted_by_time(out),
        out.to_multiset() == total,
{
    let e = Seq::<Event>::empty();
    assert(e + e =~= e);
    assert(e.to_multiset() =~= vstd::multiset::Multiset::empty());
    assert(out.to_multiset().add(e.to_multiset()).add(e.to_multiset()) =~= out.to_multiset());
}

} // verus!
