//! Data structures useful for audio programming: a queue that can report the
//! maximum of its current contents in amortized constant time.

use vstd::prelude::*;
use vstd::assert_seqs_equal;
use std::collections::VecDeque;
use crate::sample::TotalOrder;

verus! {

/// `a` lies strictly below `b` in the order.
pub open spec fn below<T: TotalOrder>(a: T, b: T) -> bool {
    !b.le_spec(a)
}

/// `a` and `b` compare equal in the order (both directions hold).
pub open spec fn order_eq<T: TotalOrder>(a: T, b: T) -> bool {
    a.le_spec(b) && b.le_spec(a)
}

/// `m` holds the greatest element of the window `s`.
pub open spec fn is_max_of<T: TotalOrder>(m: T, s: Seq<T>) -> bool {
    &&& s.contains(m)
    &&& forall|k: int| 0 <= k < s.len() ==> #[trigger] s[k].le_spec(m)
}

/// Number of leading entries of `m` that lie strictly below `v`.
pub open spec fn drop_count<T: TotalOrder>(m: Seq<T>, v: T) -> int
    decreases m.len(),
{
    if m.len() == 0 {
        0
    } else if below(m[0], v) {
        1 + drop_count(m.drop_first(), v)
    } else {
        0
    }
}

/// Drop the leading entries of `m` that lie strictly below `v`.
pub open spec fn drop_below<T: TotalOrder>(m: Seq<T>, v: T) -> Seq<T>
    decreases m.len(),
{
    if m.len() == 0 {
        Seq::empty()
    } else if below(m[0], v) {
        drop_below(m.drop_first(), v)
    } else {
        m
    }
}

/// The candidate records of a window held newest-first: the newest element,
/// followed by those records of the older part that are not strictly below it.
/// The last record is always the window's maximum.
pub open spec fn records<T: TotalOrder>(s: Seq<T>) -> Seq<T>
    decreases s.len(),
{
    if s.len() == 0 {
        Seq::empty()
    } else {
        seq![s[0]] + drop_below(records(s.drop_first()), s[0])
    }
}

/// Every entry of `m` is at or below every later entry.
pub open spec fn sorted_up<T: TotalOrder>(m: Seq<T>) -> bool {
    forall|i: int, j: int| 0 <= i <= j < m.len() ==> #[trigger] m[i].le_spec(m[j])
}

proof fn lemma_below_le_trans<T: TotalOrder>(a: T, b: T, c: T)
    requires
        a.le_spec(b),
        below(b, c),
    ensures
        below(a, c),
{
    if c.le_spec(a) {
        T::lemma_transitive(c, a, b);
    }
}

proof fn lemma_drop_below_suffix<T: TotalOrder>(m: Seq<T>, v: T)
    ensures
        0 <= drop_count(m, v) <= m.len(),
        drop_below(m, v) == m.subrange(drop_count(m, v), m.len() as int),
        forall|i: int| 0 <= i < drop_count(m, v) ==> below(#[trigger] m[i], v),
        drop_count(m, v) < m.len() ==> !below(m[drop_count(m, v)], v),
    decreases m.len(),
{
    if m.len() == 0 {
        assert_seqs_equal!(drop_below(m, v) == m.subrange(0, 0));
    } else if below(m[0], v) {
        let rest = m.drop_first();
        lemma_drop_below_suffix(rest, v);
        let c = drop_count(rest, v);
        assert_seqs_equal!(rest.subrange(c, rest.len() as int) ==
            m.subrange(c + 1, m.len() as int));
        assert(forall|i: int| 1 <= i < drop_count(m, v) ==> below(#[trigger] m[i], v)) by {
            assert(forall|i: int| 0 <= i < c ==> below(#[trigger] rest[i], v));
            assert(forall|i: int| 1 <= i < c + 1 ==> m[i] == rest[i - 1]);
        }
    } else {
        assert_seqs_equal!(drop_below(m, v) == m.subrange(0, m.len() as int));
    }
}

proof fn lemma_drop_below_all<T: TotalOrder>(m: Seq<T>, v: T)
    requires
        forall|i: int| 0 <= i < m.len() ==> below(#[trigger] m[i], v),
    ensures
        drop_below(m, v) == Seq::<T>::empty(),
    decreases m.len(),
{
    if m.len() > 0 {
        let rest = m.drop_first();
        assert(forall|i: int| 0 <= i < rest.len() ==> below(#[trigger] rest[i], v)) by {
            assert(forall|i: int| 0 <= i < rest.len() ==> rest[i] == m[i + 1]);
        }
        lemma_drop_below_all(rest, v);
    }
}

/// Records are never longer than the window and are empty exactly when the
/// window is.
proof fn lemma_records_len<T: TotalOrder>(s: Seq<T>)
    ensures
        records(s).len() <= s.len(),
        records(s).len() == 0 <==> s.len() == 0,
        s.len() > 0 ==> records(s)[0] == s[0],
    decreases s.len(),
{
    if s.len() > 0 {
        lemma_records_len(s.drop_first());
        lemma_drop_below_suffix(records(s.drop_first()), s[0]);
    }
}

/// The record list is nondecreasing from newest to oldest.
proof fn lemma_records_sorted<T: TotalOrder>(s: Seq<T>)
    ensures
        sorted_up(records(s)),
    decreases s.len(),
{
    if s.len() > 0 {
        let v = s[0];
        let mr = records(s.drop_first());
        lemma_records_sorted(s.drop_first());
        lemma_drop_below_suffix(mr, v);
        let c = drop_count(mr, v);
        let kept = drop_below(mr, v);
        let r = records(s);
        assert(r == seq![v] + kept);
        assert(kept == mr.subrange(c, mr.len() as int));
        assert(kept.len() == mr.len() - c);
        assert forall|i: int, j: int| 0 <= i <= j < r.len() implies #[trigger] r[i].le_spec(
            r[j],
        ) by {
            if i == 0 {
                T::lemma_total(v, v);
                if j > 0 {
                    // v is at or below the first kept record, which is at or
                    // below every later one.
                    assert(c < mr.len());
                    assert(kept[0] == mr[c]);
                    assert(!below(mr[c], v));
                    assert(r[j] == kept[j - 1]);
                    assert(kept[j - 1] == mr[c + j - 1]);
                    assert(mr[c].le_spec(mr[c + j - 1]));
                    T::lemma_transitive(v, mr[c], mr[c + j - 1]);
                }
            } else {
                assert(r[i] == kept[i - 1]);
                assert(r[j] == kept[j - 1]);
                assert(kept[i - 1] == mr[c + i - 1]);
                assert(kept[j - 1] == mr[c + j - 1]);
                assert(mr[c + i - 1].le_spec(mr[c + j - 1]));
            }
        }
    }
}

/// The last record exists for a nonempty window, lies in the window, and
/// dominates every element of it.
proof fn lemma_records_last_max<T: TotalOrder>(s: Seq<T>)
    requires
        s.len() > 0,
    ensures
        records(s).len() > 0,
        is_max_of(records(s).last(), s),
    decreases s.len(),
{
    let v = s[0];
    let rest = s.drop_first();
    let mr = records(rest);
    lemma_records_len(s);
    lemma_drop_below_suffix(mr, v);
    let c = drop_count(mr, v);
    let kept = drop_below(mr, v);
    let r = records(s);
    assert(r == seq![v] + kept);
    if rest.len() == 0 {
        assert(r =~= seq![v]);
        assert(s.contains(v)) by {
            assert(s[0] == v);
        }
        assert(forall|k: int| 0 <= k < s.len() ==> #[trigger] s[k].le_spec(v)) by {
            T::lemma_total(v, v);
        }
    } else {
        lemma_records_last_max(rest);
        lemma_records_sorted(rest);
        let mx = mr.last();
        if c == mr.len() {
            // every record of the rest lies below v, so v is the new maximum
            assert(r =~= seq![v]);
            assert(r.last() == v);
            T::lemma_total(v, v);
            assert forall|k: int| 0 <= k < s.len() implies #[trigger] s[k].le_spec(v) by {
                if k > 0 {
                    assert(rest[k - 1] == s[k]);
                    assert(rest[k - 1].le_spec(mx));
                    assert(below(mx, v));
                    lemma_below_le_trans(s[k], mx, v);
                    T::lemma_total(s[k], v);
                }
            }
        } else {
            // the kept suffix still ends in the old maximum
            assert(kept.len() > 0);
            assert(r.last() == kept.last());
            assert(kept.last() == mr[mr.len() - 1]);
            assert(r.last() == mx);
            assert(rest.contains(mx));
            let w = choose|w: int| 0 <= w < rest.len() && rest[w] == mx;
            assert(s[w + 1] == mx);
            assert(s.contains(mx));
            assert forall|k: int| 0 <= k < s.len() implies #[trigger] s[k].le_spec(mx) by {
                if k == 0 {
                    // v is at or below the first kept record
                    assert(!below(mr[c], v));
                    assert(mr[c].le_spec(mx));
                    T::lemma_transitive(v, mr[c], mx);
                } else {
                    assert(rest[k - 1] == s[k]);
                    assert(rest[k - 1].le_spec(mx));
                }
            }
        }
    }
}

/// How the record list changes when the oldest window element leaves: the
/// final record is dropped exactly when the departing element compares equal
/// to it, and nothing else changes.
proof fn lemma_records_drop_last<T: TotalOrder>(s: Seq<T>)
    requires
        s.len() > 0,
    ensures
        records(s).len() > 0,
        order_eq(records(s).last(), s.last()) ==> records(s.drop_last()) == records(
            s,
        ).drop_last(),
        !order_eq(records(s).last(), s.last()) ==> records(s.drop_last()) == records(s),
    decreases s.len(),
{
    let v = s[0];
    let rest = s.drop_first();
    let mr = records(rest);
    lemma_records_len(s);
    lemma_drop_below_suffix(mr, v);
    let c = drop_count(mr, v);
    let kept = drop_below(mr, v);
    let r = records(s);
    assert(r == seq![v] + kept);
    if rest.len() == 0 {
        // single-element window: the element is its own maximum
        assert(r =~= seq![v]);
        assert(s.last() == v);
        T::lemma_total(v, v);
        assert(order_eq(r.last(), s.last()));
        assert(s.drop_last() =~= Seq::<T>::empty());
        assert(records(s.drop_last()) =~= r.drop_last());
    } else {
        lemma_records_drop_last(rest);
        lemma_records_last_max(rest);
        lemma_records_sorted(rest);
        let mx = mr.last();
        let t = s.drop_last();
        assert(t[0] == v);
        assert(t.drop_first() =~= rest.drop_last());
        assert(records(t) == seq![v] + drop_below(records(rest.drop_last()), v));
        assert(s.last() == rest.last());
        if c == mr.len() {
            // all records of the rest lie below v; the departing element does too
            assert(r =~= seq![v]);
            assert(below(mx, v));
            assert(rest.last().le_spec(mx));
            lemma_below_le_trans(rest.last(), mx, v);
            assert(!order_eq(r.last(), s.last()));
            // whichever shape the remaining records take, they all lie below v
            let mrt = records(rest.drop_last());
            assert(forall|i: int| 0 <= i < mrt.len() ==> below(#[trigger] mrt[i], v)) by {
                if order_eq(mx, rest.last()) {
                    assert(mrt == mr.drop_last());
                    assert forall|i: int| 0 <= i < mrt.len() implies below(
                        #[trigger] mrt[i],
                        v,
                    ) by {
                        assert(mrt[i] == mr[i]);
                        assert(mr[i].le_spec(mx));
                        lemma_below_le_trans(mr[i], mx, v);
                    }
                } else {
                    assert(mrt == mr);
                    assert forall|i: int| 0 <= i < mrt.len() implies below(
                        #[trigger] mrt[i],
                        v,
                    ) by {
                        assert(mr[i].le_spec(mx));
                        lemma_below_le_trans(mr[i], mx, v);
                    }
                }
            }
            lemma_drop_below_all(mrt, v);
            assert(records(t) =~= seq![v]);
        } else {
            assert(kept.len() > 0);
            assert(r.last() == mr[mr.len() - 1]);
            assert(r.last() == mx);
            if order_eq(mx, rest.last()) {
                // the departing element is the oldest maximum: both lists lose
                // their final record
                let mrt = records(rest.drop_last());
                assert(mrt == mr.drop_last());
                // dropping the last record does not change the dropped prefix
                lemma_drop_below_suffix(mrt, v);
                let ct = drop_count(mrt, v);
                assert(forall|i: int| 0 <= i < c ==> below(#[trigger] mrt[i], v)) by {
                    assert(forall|i: int| 0 <= i < c ==> mrt[i] == mr[i]);
                }
                if ct < c {
                    assert(!below(mrt[ct], v));
                    assert(below(mr[ct], v));
                    assert(mrt[ct] == mr[ct]);
                    assert(false);
                }
                if ct > c {
                    assert(below(mrt[c], v));
                    assert(mrt[c] == mr[c]);
                    assert(!below(mr[c], v));
                    assert(false);
                }
                assert(drop_below(mrt, v) =~= drop_below(mr, v).drop_last());
                assert(records(t) =~= r.drop_last());
            } else {
                // the departing element is not a record: nothing changes
                let mrt = records(rest.drop_last());
                assert(mrt == mr);
                assert(records(t) =~= r);
            }
        }
    }
}

/// A queue reporting the maximum of its contents in amortized constant time.
///
/// `elements` holds the window itself, newest element first. `max_elements`
/// holds the candidate records: a nondecreasing subsequence whose final entry
/// is the maximum of the window.
pub struct SlidingWindowMax<T> {
    elements: VecDeque<T>,
    max_elements: VecDeque<T>,
}

impl<T: TotalOrder> View for SlidingWindowMax<T> {
    type V = Seq<T>;

    /// The queued window, newest element at index 0.
    closed spec fn view(&self) -> Seq<T> {
        self.elements@
    }
}

impl<T: TotalOrder> SlidingWindowMax<T> {
    /// The candidate list is exactly the record list of the window.
    pub closed spec fn wf(&self) -> bool {
        self.max_elements@ == records(self.elements@)
    }

    pub fn new() -> (r: Self)
        ensures
            r.wf(),
            r@ == Seq::<T>::empty(),
    {
        SlidingWindowMax { elements: VecDeque::new(), max_elements: VecDeque::new() }
    }

    pub fn with_capacity(capacity: usize) -> (r: Self)
        ensures
            r.wf(),
            r@ == Seq::<T>::empty(),
    {
        SlidingWindowMax {
            elements: VecDeque::with_capacity(capacity),
            max_elements: VecDeque::with_capacity(capacity),
        }
    }

    pub fn len(&self) -> (r: usize)
        ensures
            r == self@.len(),
    {
        self.elements.len()
    }

    pub fn is_empty(&self) -> (r: bool)
        ensures
            r == (self@.len() == 0),
    {
        self.elements.len() == 0
    }

    pub fn clear(&mut self)
        ensures
            final(self).wf(),
            final(self)@ == Seq::<T>::empty(),
    {
        self.elements.clear();
        self.max_elements.clear();
    }

    /// Add `value` as the newest element of the window.
    pub fn enqueue(&mut self, value: T)
        requires
            old(self).wf(),
        ensures
            final(self).wf(),
            final(self)@ == seq![value] + old(self)@,
    {
        let ghost m0 = self.max_elements@;
        // remove all candidates strictly below value from the newest side
        loop
            invariant
                self.elements@ == old(self)@,
                drop_below(m0, value) == drop_below(self.max_elements@, value),
            ensures
                self.elements@ == old(self)@,
                drop_below(m0, value) == self.max_elements@,
            decreases self.max_elements@.len(),
        {
            if self.max_elements.len() == 0 {
                break ;
            }
            let front: T = *std::ops::Index::index(&self.max_elements, 0);
            if !front.lt(value) {
                proof {
                    assert(!below(self.max_elements@[0], value));
                    assert(drop_below(self.max_elements@, value) == self.max_elements@);
                }
                break ;
            }
            let ghost cur = self.max_elements@;
            proof {
                assert(below(cur[0], value));
                assert(drop_below(cur, value) == drop_below(cur.drop_first(), value));
            }
            let _ = self.max_elements.pop_front();
            proof {
                assert(self.max_elements@ =~= cur.drop_first());
            }
        }
        self.elements.push_front(value);
        self.max_elements.push_front(value);
        proof {
            let e1 = self.elements@;
            assert(e1 == seq![value] + old(self)@);
            assert(e1.len() > 0);
            assert(e1[0] == value);
            assert(e1.drop_first() =~= old(self)@);
            assert(self.max_elements@ =~= seq![value] + drop_below(m0, value));
            assert(records(e1) == seq![value] + drop_below(records(old(self)@), value));
        }
    }

    /// Remove and return the oldest element of the window, if any.
    pub fn dequeue(&mut self) -> (result: Option<T>)
        requires
            old(self).wf(),
        ensures
            final(self).wf(),
            match result {
                Some(x) => old(self)@.len() > 0 && x == old(self)@.last() && final(self)@ == old(
                    self,
                )@.drop_last(),
                None => old(self)@.len() == 0 && final(self)@ == old(self)@,
            },
    {
        proof {
            lemma_records_len(self.elements@);
        }
        let result = self.elements.pop_back();
        match result {
            None => {
                proof {
                    assert(old(self)@ =~= self.elements@);
                }
                None
            },
            Some(x) => {
                proof {
                    lemma_records_drop_last(old(self)@);
                    assert(self.elements@ =~= old(self)@.drop_last());
                }
                let last_pos = self.max_elements.len() - 1;
                let back: T = *std::ops::Index::index(&self.max_elements, last_pos);
                proof {
                    assert(back == records(old(self)@).last());
                }
                if back.le(x) && x.le(back) {
                    self.max_elements.pop_back();
                    proof {
                        assert(self.max_elements@ =~= records(old(self)@).drop_last());
                    }
                } else {
                    proof {
                        assert(self.max_elements@ =~= records(old(self)@));
                    }
                }
                Some(x)
            },
        }
    }

    /// The maximum of the current window contents, `None` when the window is
    /// empty.
    pub fn maximum(&self) -> (r: Option<T>)
        requires
            self.wf(),
        ensures
            match r {
                Some(m) => self@.len() > 0 && is_max_of(m, self@),
                None => self@.len() == 0,
            },
    {
        proof {
            lemma_records_len(self.elements@);
        }
        if self.max_elements.len() == 0 {
            None
        } else {
            proof {
                lemma_records_last_max(self.elements@);
            }
            let last_pos = self.max_elements.len() - 1;
            let back: T = *std::ops::Index::index(&self.max_elements, last_pos);
            Some(back)
        }
    }
}

} // verus!
