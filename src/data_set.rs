use vstd::prelude::*;

use core::cmp::Ordering;

use crate::data::{lemma_order_total, lemma_same_slot_iff_equal, Data};
use crate::timestamp::{now, Timestamp};

verus! {

broadcast use vstd::seq_lib::group_to_multiset_ensures;

/// No two members occupy the same slot.
pub open spec fn distinct_slots(s: Seq<Data>) -> bool {
    forall|i: int, j: int| #![trigger s[i], s[j]] 0 <= i < j < s.len() ==> !s[i].same_slot(&s[j])
}

/// Some member occupies the slot of `d`.
pub open spec fn has_slot(s: Seq<Data>, d: Data) -> bool {
    exists|i: int| 0 <= i < s.len() && (#[trigger] s[i]).same_slot(&d)
}

/// `s` after inserting `d`: the member in the slot of `d` is overwritten in
/// place, or `d` is appended where there is none.
pub open spec fn inserted(s: Seq<Data>, d: Data) -> Seq<Data> {
    if has_slot(s, d) {
        let i = choose|i: int| 0 <= i < s.len() && (#[trigger] s[i]).same_slot(&d);
        s.update(i, d)
    } else {
        s.push(d)
    }
}

/// `s` after inserting each of `t` in order.
pub open spec fn inserted_all(s: Seq<Data>, t: Seq<Data>) -> Seq<Data>
    decreases t.len(),
{
    if t.len() == 0 {
        s
    } else {
        inserted(inserted_all(s, t.drop_last()), t.last())
    }
}

/// The latest of `start` and the timestamps of `t`.
pub open spec fn latest(start: Timestamp, t: Seq<Data>) -> Timestamp
    decreases t.len(),
{
    if t.len() == 0 {
        start
    } else {
        latest(start, t.drop_last()).spec_max(t.last().header().timestamp)
    }
}

/// The members not older than `min`, in order.
pub open spec fn not_older_than(s: Seq<Data>, min: Timestamp) -> Seq<Data> {
    s.filter(|d: Data| min.spec_le(d.header().timestamp))
}

/// Each member is strictly before the next.
pub open spec fn strictly_sorted(s: Seq<Data>) -> bool {
    forall|i: int, j: int| #![trigger s[i], s[j]] 0 <= i < j < s.len() ==> s[i].spec_before(&s[j])
}

/// Each member's variant agrees with its protocol family.
pub open spec fn all_well_formed(s: Seq<Data>) -> bool {
    forall|i: int| 0 <= i < s.len() ==> (#[trigger] s[i]).well_formed()
}

/// Members in strict order occupy distinct slots.
pub proof fn lemma_sorted_distinct(s: Seq<Data>)
    requires
        strictly_sorted(s),
    ensures
        distinct_slots(s),
{
    assert forall|i: int, j: int| #![trigger s[i], s[j]] 0 <= i < j < s.len() implies !s[i].same_slot(&s[j]) by {
        lemma_same_slot_iff_equal(s[i], s[j]);
    }
}

/// A set of logically distinct `Data`, with the latest timestamp it has taken in.
#[derive(Clone, Debug)]
pub struct DataSet {
    /// The latest timestamp among all `Data` and data sets ever added.
    pub timestamp: Timestamp,
    set: Vec<Data>,
}

impl View for DataSet {
    type V = Seq<Data>;

    closed spec fn view(&self) -> Seq<Data> {
        self.set@
    }
}

/// Inserting into a set of distinct slots keeps the slots distinct.
pub proof fn lemma_inserted_distinct(s: Seq<Data>, d: Data)
    requires
        distinct_slots(s),
    ensures
        distinct_slots(inserted(s, d)),
        inserted(s, d).len() == if has_slot(s, d) { s.len() } else { s.len() + 1 },
{
    if has_slot(s, d) {
        let i = choose|i: int| 0 <= i < s.len() && (#[trigger] s[i]).same_slot(&d);
        let r = s.update(i, d);
        assert forall|a: int, b: int| #![trigger r[a], r[b]] 0 <= a < b < r.len() implies !r[a].same_slot(&r[b]) by {
            if a == i {
                assert(!s[i].same_slot(&s[b]));
            } else if b == i {
                assert(!s[a].same_slot(&s[i]));
            } else {
                assert(!s[a].same_slot(&s[b]));
            }
        }
    } else {
        let r = s.push(d);
        assert forall|a: int, b: int| #![trigger r[a], r[b]] 0 <= a < b < r.len() implies !r[a].same_slot(&r[b]) by {
            if b == s.len() {
                if r[a].same_slot(&r[b]) {
                    assert(s[a].same_slot(&d));
                }
            } else {
                assert(!s[a].same_slot(&s[b]));
            }
        }
    }
}

/// Inserting any sequence into a set of distinct slots keeps them distinct.
pub proof fn lemma_inserted_all_distinct(s: Seq<Data>, t: Seq<Data>)
    requires
        distinct_slots(s),
    ensures
        distinct_slots(inserted_all(s, t)),
    decreases t.len(),
{
    if t.len() > 0 {
        lemma_inserted_all_distinct(s, t.drop_last());
        lemma_inserted_distinct(inserted_all(s, t.drop_last()), t.last());
    }
}

/// The latest timestamp is never before the one it started from.
pub proof fn lemma_latest_monotone(start: Timestamp, t: Seq<Data>)
    ensures
        start.spec_le(latest(start, t)),
    decreases t.len(),
{
    if t.len() > 0 {
        lemma_latest_monotone(start, t.drop_last());
    }
}

impl DataSet {
    /// The value of the `timestamp` field.
    pub closed spec fn stamp(&self) -> Timestamp {
        self.timestamp
    }

    /// The members are in distinct slots.
    pub closed spec fn well_formed(&self) -> bool {
        distinct_slots(self.set@)
    }

    /// An empty set stamped with the current time.
    pub fn new() -> (r: DataSet)
        ensures
            r@ == Seq::<Data>::empty(),
            r.well_formed(),
    {
        DataSet { timestamp: now(), set: Vec::new() }
    }

    /// A set of the given members, which are in distinct slots.
    pub fn from_data(timestamp: Timestamp, set: Vec<Data>) -> (r: DataSet)
        requires
            distinct_slots(set@),
        ensures
            r@ == set@,
            r.stamp() == timestamp,
            r.well_formed(),
    {
        DataSet { timestamp, set }
    }

    /// The members, in order.
    pub fn as_data_slice(&self) -> (r: &[Data])
        ensures
            r@ == self@,
    {
        self.set.as_slice()
    }

    /// Adds `data`, overwriting the member in its slot if there is one, and
    /// moves the timestamp forward to that of `data` if it is later.
    pub fn add_data(&mut self, data: Data)
        requires
            old(self).well_formed(),
        ensures
            final(self)@ == inserted(old(self)@, data),
            final(self).stamp() == old(self).stamp().spec_max(data.header().timestamp),
            old(self).stamp().spec_le(final(self).stamp()),
            final(self).well_formed(),
    {
        let timestamp = data.as_header().timestamp;
        let n = self.set.len();
        let mut i: usize = 0;
        while i < n
            invariant
                n == self.set@.len(),
                i <= n,
                self.set@ == old(self).set@,
                self.timestamp == old(self).stamp(),
                forall|j: int| 0 <= j < i ==> !(#[trigger] self.set@[j]).same_slot(&data),
            ensures
                i <= n,
                self.set@ == old(self).set@,
                self.timestamp == old(self).stamp(),
                i < n ==> self.set@[i as int].same_slot(&data),
                forall|j: int| 0 <= j < i ==> !(#[trigger] self.set@[j]).same_slot(&data),
            decreases n - i,
        {
            if self.set[i].eq(&data) {
                break;
            }
            i = i + 1;
        }
        proof {
            lemma_inserted_distinct(self.set@, data);
        }
        if i < n {
            let ghost s = self.set@;
            proof {
                assert(s[i as int].same_slot(&data));
                let c = choose|c: int| 0 <= c < s.len() && (#[trigger] s[c]).same_slot(&data);
                if c != i {
                    if c < i {
                        assert(!s[c].same_slot(&s[i as int]));
                    } else {
                        assert(!s[i as int].same_slot(&s[c]));
                    }
                }
            }
            self.set.set(i, data);
        } else {
            self.set.push(data);
        }
        if self.timestamp.is_before(&timestamp) {
            self.timestamp = timestamp;
        }
    }

    /// Adds each member of `data_set` in order, then moves the timestamp
    /// forward to that of `data_set` if it is later.
    pub fn add_data_set(&mut self, data_set: DataSet)
        requires
            old(self).well_formed(),
        ensures
            final(self)@ == inserted_all(old(self)@, data_set@),
            final(self).stamp() == latest(old(self).stamp(), data_set@).spec_max(
                data_set.stamp(),
            ),
            old(self).stamp().spec_le(final(self).stamp()),
            final(self).well_formed(),
    {
        let timestamp = data_set.timestamp;
        let ghost all = data_set@;
        let mut items = data_set.set;
        let ghost n: int = all.len() as int;
        let ghost mut k: int = 0;
        while items.len() > 0
            invariant
                0 <= k <= n,
                n == all.len(),
                items@ == all.subrange(k, n),
                self@ == inserted_all(old(self)@, all.subrange(0, k)),
                self.timestamp == latest(old(self).timestamp, all.subrange(0, k)),
                self.well_formed(),
            decreases items@.len(),
        {
            let data = items.remove(0);
            proof {
                assert(all.subrange(0, k + 1).drop_last() =~= all.subrange(0, k));
                assert(all.subrange(0, k + 1).last() == data);
                k = k + 1;
            }
            self.add_data(data);
            proof {
                assert(items@ =~= all.subrange(k, n));
            }
        }
        proof {
            assert(all.subrange(0, k) =~= all);
            lemma_latest_monotone(old(self).timestamp, all);
        }
        if self.timestamp.is_before(&timestamp) {
            self.timestamp = timestamp;
        }
    }

    /// Removes the members whose timestamp is before `min_timestamp`; the
    /// set's own timestamp stays as it is.
    pub fn remove_data_older_than(&mut self, min_timestamp: Timestamp)
        requires
            old(self).well_formed(),
        ensures
            final(self)@ == not_older_than(old(self)@, min_timestamp),
            final(self).stamp() == old(self).stamp(),
            final(self).well_formed(),
    {
        let ghost all = self.set@;
        let ghost pred = |d: Data| min_timestamp.spec_le(d.header().timestamp);
        let mut items = Vec::new();
        std::mem::swap(&mut items, &mut self.set);
        let ghost n: int = all.len() as int;
        let ghost mut k: int = 0;
        while items.len() > 0
            invariant
                0 <= k <= n,
                n == all.len(),
                distinct_slots(all),
                pred == (|d: Data| min_timestamp.spec_le(d.header().timestamp)),
                items@ == all.subrange(k, n),
                self.set@ == all.subrange(0, k).filter(pred),
                self.timestamp == old(self).stamp(),
                distinct_slots(self.set@),
                forall|a: int|
                    0 <= a < self.set@.len() ==> exists|j: int|
                        0 <= j < k && (#[trigger] self.set@[a]) == all[j],
            decreases items@.len(),
        {
            let data = items.remove(0);
            let ghost gd = data;
            proof {
                assert(all.subrange(0, k + 1) =~= all.subrange(0, k).push(data));
                all.subrange(0, k).lemma_filter_push(data, pred);
            }
            let keep = min_timestamp.is_not_after(&data.as_header().timestamp);
            if keep {
                let ghost before = self.set@;
                proof {
                    assert forall|a: int| 0 <= a < before.len() implies !(#[trigger] before[a]).same_slot(
                        &data,
                    ) by {
                        let j = choose|j: int| 0 <= j < k && before[a] == all[j];
                        assert(!all[j].same_slot(&all[k]));
                    }
                }
                self.set.push(data);
                proof {
                    assert forall|a: int, b: int| #![trigger self.set@[a], self.set@[b]]
                        0 <= a < b < self.set@.len() implies !self.set@[a].same_slot(&self.set@[b]) by {
                        if b < before.len() {
                            assert(!before[a].same_slot(&before[b]));
                        }
                    }
                    assert forall|a: int| 0 <= a < self.set@.len() implies exists|j: int|
                        0 <= j < k + 1 && (#[trigger] self.set@[a]) == all[j] by {
                        if a < before.len() {
                            let j = choose|j: int| 0 <= j < k && before[a] == all[j];
                            assert(0 <= j < k + 1 && self.set@[a] == all[j]);
                        } else {
                            assert(self.set@[a] == all[k]);
                        }
                    }
                }
            }
            proof {
                assert(pred(gd) == keep);
                k = k + 1;
                assert(items@ =~= all.subrange(k, n));
            }
        }
        proof {
            assert(all.subrange(0, k) =~= all);
        }
    }

    /// Puts the members in the order of `Data`'s comparison; every member
    /// must be well formed, so that any two compare.
    pub fn sort(&mut self)
        requires
            old(self).well_formed(),
            all_well_formed(old(self)@),
        ensures
            final(self)@.to_multiset() == old(self)@.to_multiset(),
            strictly_sorted(final(self)@),
            final(self).stamp() == old(self).stamp(),
            final(self).well_formed(),
    {
        let ghost all = self.set@;
        let mut items = Vec::new();
        std::mem::swap(&mut items, &mut self.set);
        let ghost n: int = all.len() as int;
        let ghost mut k: int = 0;
        while items.len() > 0
            invariant
                0 <= k <= n,
                n == all.len(),
                distinct_slots(all),
                all_well_formed(all),
                items@ == all.subrange(k, n),
                self.set@.to_multiset() == all.subrange(0, k).to_multiset(),
                strictly_sorted(self.set@),
                forall|a: int|
                    0 <= a < self.set@.len() ==> exists|j: int|
                        0 <= j < k && (#[trigger] self.set@[a]) == all[j],
                self.timestamp == old(self).stamp(),
            decreases items@.len(),
        {
            let data = items.remove(0);
            let ghost gd = data;
            let len = self.set.len();
            let mut p: usize = 0;
            while p < len
                invariant
                    p <= len,
                    gd == data,
                    len == self.set@.len(),
                    forall|q: int| 0 <= q < p ==> !gd.spec_before(&#[trigger] self.set@[q]),
                ensures
                    p <= len,
                    p < len ==> gd.spec_before(&self.set@[p as int]),
                    forall|q: int| 0 <= q < p ==> !gd.spec_before(&#[trigger] self.set@[q]),
                decreases len - p,
            {
                if let Some(Ordering::Less) = data.partial_cmp(&self.set[p]) {
                    break;
                }
                p = p + 1;
            }
            let ghost before = self.set@;
            proof {
                assert(gd == all[k]);
                assert(gd.well_formed());
                assert forall|q: int| 0 <= q < before.len() implies (#[trigger] before[q]).well_formed()
                    && !before[q].same_slot(&gd) by {
                    let j = choose|j: int| 0 <= j < k && before[q] == all[j];
                    assert(!all[j].same_slot(&all[k]));
                }
            }
            self.set.insert(p, data);
            proof {
                let r = self.set@;
                assert(r == before.insert(p as int, gd));
                assert forall|i: int, j: int| #![trigger r[i], r[j]] 0 <= i < j < r.len() implies r[i].spec_before(&r[j]) by {
                    if j < p {
                        assert(before[i].spec_before(&before[j]));
                    } else if j == p {
                        lemma_order_total(before[i], gd, gd);
                        lemma_same_slot_iff_equal(before[i], gd);
                        assert(!gd.spec_before(&before[i]));
                    } else if i == p {
                        if j - 1 == p {
                        } else {
                            assert(before[p as int].spec_before(&before[j - 1]));
                            lemma_order_total(gd, before[p as int], before[j - 1]);
                        }
                    } else if i < p {
                        assert(before[i].spec_before(&before[j - 1]));
                    } else {
                        assert(before[i - 1].spec_before(&before[j - 1]));
                    }
                }
                assert(all.subrange(0, k + 1) =~= all.subrange(0, k).push(gd));
                assert forall|a: int| 0 <= a < r.len() implies exists|j: int|
                    0 <= j < k + 1 && (#[trigger] r[a]) == all[j] by {
                    if a < p {
                        let j = choose|j: int| 0 <= j < k && before[a] == all[j];
                        assert(0 <= j < k + 1 && r[a] == all[j]);
                    } else if a == p {
                        assert(r[a] == all[k]);
                    } else {
                        let j = choose|j: int| 0 <= j < k && before[a - 1] == all[j];
                        assert(0 <= j < k + 1 && r[a] == all[j]);
                    }
                }
                k = k + 1;
                assert(items@ =~= all.subrange(k, n));
            }
        }
        proof {
            assert(all.subrange(0, k) =~= all);
            lemma_sorted_distinct(self.set@);
        }
    }
}

} // verus!
