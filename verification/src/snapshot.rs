//! The complete set of displays at one instant.
//!
//! A snapshot is a mapping from identity to display. It is kept as a vector
//! in the canonical order of the identities, so that one mapping has exactly
//! one representation and every walk over it takes the same course.

use vstd::prelude::*;
use crate::display::{Display, DisplayView};
use crate::id::{
    id_lt, lemma_id_lt_asymmetric, lemma_id_lt_irreflexive, lemma_id_lt_transitive, DisplayId,
    DisplayIdView, Position,
};

verus! {

/// The displays of a sequence as mathematical values.
pub open spec fn display_views(displays: Seq<Display>) -> Seq<DisplayView> {
    displays.map_values(|d: Display| d@)
}

/// Whether the identities strictly ascend along the sequence.
pub open spec fn ascending(s: Seq<DisplayView>) -> bool {
    forall|i: int, j: int| 0 <= i < j < s.len() ==> id_lt(#[trigger] s[i].id, #[trigger] s[j].id)
}

/// Whether no identity occurs twice in the sequence.
pub open spec fn distinct_ids(s: Seq<DisplayView>) -> bool {
    forall|i: int, j: int| 0 <= i < j < s.len() ==> #[trigger] s[i].id != #[trigger] s[j].id
}

/// Whether some record of the sequence has the identity.
pub open spec fn has_id(s: Seq<DisplayView>, id: DisplayIdView) -> bool {
    exists|i: int| 0 <= i < s.len() && #[trigger] s[i].id == id
}

/// The mapping that a sequence of records describes: each identity with the
/// last record that has it.
pub open spec fn map_of(s: Seq<DisplayView>) -> Map<DisplayIdView, DisplayView>
    decreases s.len(),
{
    if s.len() == 0 {
        Map::empty()
    } else {
        map_of(s.drop_last()).insert(s.last().id, s.last())
    }
}

/// The identities of [`map_of`] are those of the records.
pub proof fn lemma_map_of_domain(s: Seq<DisplayView>)
    ensures
        forall|id: DisplayIdView| #[trigger] map_of(s).contains_key(id) <==> has_id(s, id),
    decreases s.len(),
{
    if s.len() > 0 {
        let front = s.drop_last();
        lemma_map_of_domain(front);
        assert forall|id: DisplayIdView| #[trigger] map_of(s).contains_key(id) <==> has_id(
            s,
            id,
        ) by {
            if has_id(s, id) {
                let i = choose|i: int| 0 <= i < s.len() && #[trigger] s[i].id == id;
                if i < s.len() - 1 {
                    assert(front[i].id == id);
                    assert(has_id(front, id));
                    assert(map_of(front).contains_key(id));
                }
            }
            if map_of(s).contains_key(id) {
                if id == s.last().id {
                    assert(s[s.len() - 1].id == id);
                } else {
                    assert(map_of(front).contains_key(id));
                    assert(has_id(front, id));
                    let i = choose|i: int| 0 <= i < front.len() && #[trigger] front[i].id == id;
                    assert(s[i].id == id);
                }
            }
        }
    }
}

/// [`map_of`] holds every record under its own identity.
pub proof fn lemma_map_of_keys(s: Seq<DisplayView>)
    ensures
        forall|id: DisplayIdView| #[trigger] map_of(s).contains_key(id) ==> map_of(s)[id].id == id,
    decreases s.len(),
{
    if s.len() > 0 {
        lemma_map_of_keys(s.drop_last());
    }
}

/// Where no identity occurs twice, [`map_of`] gives every record back under
/// its identity.
pub proof fn lemma_map_of_values(s: Seq<DisplayView>)
    requires
        distinct_ids(s),
    ensures
        forall|i: int| 0 <= i < s.len() ==> map_of(s).contains_key(#[trigger] s[i].id) && map_of(
            s,
        )[s[i].id] == s[i],
    decreases s.len(),
{
    if s.len() > 0 {
        let front = s.drop_last();
        assert(distinct_ids(front)) by {
            assert forall|i: int, j: int| 0 <= i < j < front.len() implies #[trigger] front[i].id
                != #[trigger] front[j].id by {
                assert(s[i].id != s[j].id);
            }
        }
        lemma_map_of_values(front);
        assert forall|i: int| 0 <= i < s.len() implies map_of(s).contains_key(#[trigger] s[i].id)
            && map_of(s)[s[i].id] == s[i] by {
            if i < s.len() - 1 {
                assert(front[i] == s[i]);
                assert(s[i].id != s[s.len() - 1].id);
            }
        }
    }
}

/// Ascending identities are distinct.
pub proof fn lemma_ascending_distinct(s: Seq<DisplayView>)
    requires
        ascending(s),
    ensures
        distinct_ids(s),
{
    assert forall|i: int, j: int| 0 <= i < j < s.len() implies #[trigger] s[i].id
        != #[trigger] s[j].id by {
        lemma_id_lt_asymmetric(s[i].id, s[j].id);
    }
}

/// Two record sequences without repeated identities that hold the same
/// records, in whatever order, describe the same mapping.
pub proof fn lemma_map_of_ignores_order(a: Seq<DisplayView>, b: Seq<DisplayView>)
    requires
        distinct_ids(a),
        distinct_ids(b),
        forall|d: DisplayView| a.contains(d) <==> b.contains(d),
    ensures
        map_of(a) == map_of(b),
{
    lemma_map_of_domain(a);
    lemma_map_of_domain(b);
    lemma_map_of_values(a);
    lemma_map_of_values(b);
    assert forall|id: DisplayIdView| map_of(a).contains_key(id) implies map_of(b).contains_key(id)
        && map_of(a)[id] == map_of(b)[id] by {
        let i = choose|i: int| 0 <= i < a.len() && #[trigger] a[i].id == id;
        assert(a.contains(a[i]));
        assert(b.contains(a[i]));
        let j = choose|j: int| 0 <= j < b.len() && b[j] == a[i];
        assert(b[j].id == id);
    }
    assert forall|id: DisplayIdView| map_of(b).contains_key(id) implies map_of(a).contains_key(
        id,
    ) by {
        let j = choose|j: int| 0 <= j < b.len() && #[trigger] b[j].id == id;
        assert(b.contains(b[j]));
        assert(a.contains(b[j]));
        let i = choose|i: int| 0 <= i < a.len() && a[i] == b[j];
        assert(a[i].id == id);
    }
    assert(map_of(a) =~= map_of(b));
}

/// A mapping has one ascending sequence only: two ascending sequences that
/// describe the same mapping are the same sequence.
pub proof fn lemma_ascending_unique(a: Seq<DisplayView>, b: Seq<DisplayView>)
    requires
        ascending(a),
        ascending(b),
        map_of(a) == map_of(b),
    ensures
        a == b,
    decreases a.len(),
{
    lemma_map_of_domain(a);
    lemma_map_of_domain(b);
    lemma_ascending_distinct(a);
    lemma_ascending_distinct(b);
    lemma_map_of_values(a);
    lemma_map_of_values(b);
    if a.len() == 0 {
        if b.len() > 0 {
            assert(map_of(b).contains_key(b[0].id));
            assert(has_id(a, b[0].id));
        }
        assert(a =~= b);
    } else if b.len() == 0 {
        assert(map_of(a).contains_key(a[0].id));
        assert(has_id(b, a[0].id));
    } else {
        let la = a.last();
        let lb = b.last();
        assert(map_of(a).contains_key(a[a.len() - 1].id));
        assert(has_id(b, la.id));
        let j = choose|j: int| 0 <= j < b.len() && #[trigger] b[j].id == la.id;
        assert(map_of(b).contains_key(b[b.len() - 1].id));
        assert(has_id(a, lb.id));
        let i = choose|i: int| 0 <= i < a.len() && #[trigger] a[i].id == lb.id;
        if j < b.len() - 1 {
            assert(id_lt(b[j].id, b[b.len() - 1].id));
            if i < a.len() - 1 {
                assert(id_lt(a[i].id, a[a.len() - 1].id));
                lemma_id_lt_asymmetric(la.id, lb.id);
            } else {
                lemma_id_lt_irreflexive(la.id);
            }
        }
        assert(la.id == lb.id);
        assert(map_of(a)[la.id] == la);
        assert(map_of(b)[lb.id] == lb);
        assert(la == lb);
        let fa = a.drop_last();
        let fb = b.drop_last();
        assert(ascending(fa)) by {
            assert forall|p: int, q: int| 0 <= p < q < fa.len() implies id_lt(
                #[trigger] fa[p].id,
                #[trigger] fa[q].id,
            ) by {
                assert(id_lt(a[p].id, a[q].id));
            }
        }
        assert(ascending(fb)) by {
            assert forall|p: int, q: int| 0 <= p < q < fb.len() implies id_lt(
                #[trigger] fb[p].id,
                #[trigger] fb[q].id,
            ) by {
                assert(id_lt(b[p].id, b[q].id));
            }
        }
        lemma_map_of_domain(fa);
        lemma_map_of_domain(fb);
        assert(!map_of(fa).contains_key(la.id)) by {
            if has_id(fa, la.id) {
                let p = choose|p: int| 0 <= p < fa.len() && #[trigger] fa[p].id == la.id;
                assert(a[p].id != a[a.len() - 1].id);
            }
        }
        assert(!map_of(fb).contains_key(lb.id)) by {
            if has_id(fb, lb.id) {
                let p = choose|p: int| 0 <= p < fb.len() && #[trigger] fb[p].id == lb.id;
                assert(b[p].id != b[b.len() - 1].id);
            }
        }
        assert(map_of(fa) =~= map_of(a).remove(la.id));
        assert(map_of(fb) =~= map_of(b).remove(lb.id));
        lemma_ascending_unique(fa, fb);
        assert(a =~= fa.push(la));
        assert(b =~= fb.push(lb));
    }
}

/// Putting a record into an ascending sequence at a place where the
/// sequence stays ascending adds it to the mapping.
pub proof fn lemma_map_of_insert(s: Seq<DisplayView>, k: int, d: DisplayView)
    requires
        ascending(s),
        0 <= k <= s.len(),
        ascending(s.insert(k, d)),
    ensures
        map_of(s.insert(k, d)) == map_of(s).insert(d.id, d),
        !map_of(s).contains_key(d.id),
{
    let t = s.insert(k, d);
    lemma_map_of_domain(s);
    lemma_map_of_domain(t);
    lemma_ascending_distinct(s);
    lemma_ascending_distinct(t);
    lemma_map_of_values(s);
    lemma_map_of_values(t);
    assert(t[k] == d);
    assert forall|i: int| 0 <= i < s.len() implies #[trigger] s[i].id != d.id by {
        if i < k {
            assert(t[i] == s[i]);
            assert(t[i].id != t[k].id);
        } else {
            assert(t[i + 1] == s[i]);
            assert(t[k].id != t[i + 1].id);
        }
    }
    assert forall|id: DisplayIdView| map_of(t).contains_key(id) implies #[trigger] map_of(
        s,
    ).insert(d.id, d).contains_key(id) && map_of(t)[id] == map_of(s).insert(d.id, d)[id] by {
        let i = choose|i: int| 0 <= i < t.len() && #[trigger] t[i].id == id;
        if i < k {
            assert(s[i] == t[i]);
        } else if i > k {
            assert(s[i - 1] == t[i]);
        }
    }
    assert forall|id: DisplayIdView| #[trigger]
        map_of(s).insert(d.id, d).contains_key(id) implies map_of(t).contains_key(id) by {
        if id == d.id {
            assert(t[k].id == id);
        } else {
            let i = choose|i: int| 0 <= i < s.len() && #[trigger] s[i].id == id;
            if i < k {
                assert(t[i] == s[i]);
            } else {
                assert(t[i + 1] == s[i]);
            }
        }
    }
    assert(map_of(t) =~= map_of(s).insert(d.id, d));
}

/// Taking a record out of an ascending sequence takes it out of the mapping.
pub proof fn lemma_map_of_remove(s: Seq<DisplayView>, k: int)
    requires
        ascending(s),
        0 <= k < s.len(),
    ensures
        ascending(s.remove(k)),
        map_of(s.remove(k)) == map_of(s).remove(s[k].id),
{
    let t = s.remove(k);
    assert forall|i: int, j: int| 0 <= i < j < t.len() implies id_lt(
        #[trigger] t[i].id,
        #[trigger] t[j].id,
    ) by {
        let p = if i < k { i } else { i + 1 };
        let q = if j < k { j } else { j + 1 };
        assert(t[i] == s[p] && t[j] == s[q]);
        assert(id_lt(s[p].id, s[q].id));
    }
    lemma_map_of_domain(s);
    lemma_map_of_domain(t);
    lemma_ascending_distinct(s);
    lemma_ascending_distinct(t);
    lemma_map_of_values(s);
    lemma_map_of_values(t);
    assert forall|id: DisplayIdView| map_of(t).contains_key(id) implies #[trigger] map_of(
        s,
    ).remove(s[k].id).contains_key(id) && map_of(t)[id] == map_of(s).remove(s[k].id)[id] by {
        let i = choose|i: int| 0 <= i < t.len() && #[trigger] t[i].id == id;
        let p = if i < k { i } else { i + 1 };
        assert(t[i] == s[p]);
        assert(s[p].id != s[k].id);
    }
    assert forall|id: DisplayIdView| #[trigger]
        map_of(s).remove(s[k].id).contains_key(id) implies map_of(t).contains_key(id) by {
        let p = choose|p: int| 0 <= p < s.len() && #[trigger] s[p].id == id;
        let i = if p < k { p } else { p - 1 };
        assert(t[i] == s[p]);
    }
    assert(map_of(t) =~= map_of(s).remove(s[k].id));
}

/// Replacing a record of an ascending sequence by one with the same identity
/// replaces it in the mapping.
pub proof fn lemma_map_of_update(s: Seq<DisplayView>, k: int, d: DisplayView)
    requires
        ascending(s),
        0 <= k < s.len(),
        s[k].id == d.id,
    ensures
        ascending(s.update(k, d)),
        map_of(s.update(k, d)) == map_of(s).insert(d.id, d),
{
    let t = s.update(k, d);
    assert forall|i: int, j: int| 0 <= i < j < t.len() implies id_lt(
        #[trigger] t[i].id,
        #[trigger] t[j].id,
    ) by {
        assert(t[i].id == s[i].id && t[j].id == s[j].id);
        assert(id_lt(s[i].id, s[j].id));
    }
    lemma_map_of_domain(s);
    lemma_map_of_domain(t);
    lemma_ascending_distinct(s);
    lemma_ascending_distinct(t);
    lemma_map_of_values(s);
    lemma_map_of_values(t);
    assert forall|id: DisplayIdView| map_of(t).contains_key(id) implies #[trigger] map_of(
        s,
    ).insert(d.id, d).contains_key(id) && map_of(t)[id] == map_of(s).insert(d.id, d)[id] by {
        let i = choose|i: int| 0 <= i < t.len() && #[trigger] t[i].id == id;
        assert(s[i].id == id);
        if i != k {
            assert(t[i] == s[i]);
            assert(s[i].id != s[k].id);
        }
    }
    assert forall|id: DisplayIdView| #[trigger]
        map_of(s).insert(d.id, d).contains_key(id) implies map_of(t).contains_key(id) by {
        if id == d.id {
            assert(t[k].id == id);
        } else {
            let i = choose|i: int| 0 <= i < s.len() && #[trigger] s[i].id == id;
            assert(t[i].id == id);
        }
    }
    assert(map_of(t) =~= map_of(s).insert(d.id, d));
}

/// The complete set of known displays and their state at one instant.
#[derive(Debug)]
pub struct Snapshot {
    displays: Vec<Display>,
}

impl Snapshot {
    /// The displays of the snapshot in the canonical order of their
    /// identities.
    pub closed spec fn entries(&self) -> Seq<DisplayView> {
        display_views(self.displays@)
    }

    /// The validity of a snapshot: its displays stand in canonical order, so
    /// no identity occurs twice.
    pub open spec fn wf(&self) -> bool {
        ascending(self.entries())
    }

    /// The mapping from identity to display that the snapshot is.
    pub open spec fn view(&self) -> Map<DisplayIdView, DisplayView> {
        map_of(self.entries())
    }

    /// The snapshot without displays.
    pub fn new() -> (r: Self)
        ensures
            r.wf(),
            r@ == Map::<DisplayIdView, DisplayView>::empty(),
            r.entries() == Seq::<DisplayView>::empty(),
    {
        let r = Snapshot { displays: Vec::new() };
        assert(r.entries() =~= Seq::<DisplayView>::empty());
        r
    }

    /// The number of displays.
    pub fn len(&self) -> (r: usize)
        ensures
            r == self.entries().len(),
    {
        self.displays.len()
    }

    /// The display at a place of the canonical order.
    pub fn entry(&self, index: usize) -> (r: &Display)
        requires
            index < self.entries().len(),
        ensures
            r@ == self.entries()[index as int],
    {
        &self.displays[index]
    }

    /// The first place whose identity does not come before `id`.
    fn lower_bound(&self, id: &DisplayId) -> (r: (usize, bool))
        requires
            self.wf(),
        ensures
            r.0 <= self.entries().len(),
            forall|i: int| 0 <= i < r.0 ==> id_lt(#[trigger] self.entries()[i].id, id@),
            forall|i: int| r.0 < i < self.entries().len() ==> id_lt(id@, #[trigger] self.entries()[i].id),
            r.1 ==> r.0 < self.entries().len() && self.entries()[r.0 as int].id == id@,
            !r.1 ==> (r.0 < self.entries().len() ==> id_lt(id@, self.entries()[r.0 as int].id)),
            r.1 <==> self@.contains_key(id@),
    {
        let mut k: usize = 0;
        let mut found = false;
        let mut stop = false;
        proof {
            lemma_map_of_domain(self.entries());
        }
        while !stop && k < self.displays.len()
            invariant
                self.wf(),
                0 <= k <= self.displays.len(),
                self.entries().len() == self.displays.len(),
                found ==> stop,
                stop ==> k < self.displays.len(),
                stop && found ==> self.entries()[k as int].id == id@,
                stop && !found ==> id_lt(id@, self.entries()[k as int].id),
                forall|i: int| 0 <= i < k ==> id_lt(#[trigger] self.entries()[i].id, id@),
            decreases self.displays.len() - k + (if stop { 0int } else { 1int }),
        {
            let place = self.displays[k].id.position(id);
            assert(self.entries()[k as int].id == self.displays[k as int].id@);
            match place {
                Position::Before => {
                    k += 1;
                },
                Position::Same => {
                    found = true;
                    stop = true;
                },
                Position::After => {
                    stop = true;
                },
            }
        }
        proof {
            let s = self.entries();
            assert forall|i: int| k < i < s.len() implies id_lt(id@, #[trigger] s[i].id) by {
                assert(id_lt(s[k as int].id, s[i].id));
                if !found {
                    lemma_id_lt_transitive(id@, s[k as int].id, s[i].id);
                }
            }
            if !found && has_id(s, id@) {
                let i = choose|i: int| 0 <= i < s.len() && #[trigger] s[i].id == id@;
                lemma_id_lt_irreflexive(id@);
                if i > k {
                    assert(id_lt(id@, s[i].id));
                } else if i < k {
                    assert(id_lt(s[i].id, id@));
                }
            }
            if found {
                assert(has_id(s, id@));
            }
        }
        (k, found)
    }

    /// Whether the snapshot holds a display with the identity.
    pub fn contains(&self, id: &DisplayId) -> (r: bool)
        requires
            self.wf(),
        ensures
            r == self@.contains_key(id@),
    {
        self.lower_bound(id).1
    }

    /// The display with the identity, if the snapshot holds one.
    pub fn get(&self, id: &DisplayId) -> (r: Option<&Display>)
        requires
            self.wf(),
        ensures
            match r {
                Some(d) => self@.contains_key(id@) && self@[id@] == d@,
                None => !self@.contains_key(id@),
            },
    {
        let (k, found) = self.lower_bound(id);
        if found {
            proof {
                lemma_ascending_distinct(self.entries());
                lemma_map_of_values(self.entries());
            }
            Some(&self.displays[k])
        } else {
            None
        }
    }

    /// Puts a display into the snapshot, in place of the one with the same
    /// identity if there is one.
    pub fn insert(&mut self, display: Display)
        requires
            old(self).wf(),
        ensures
            final(self).wf(),
            final(self)@ == old(self)@.insert(display@.id, display@),
    {
        let (k, found) = self.lower_bound(&display.id);
        let ghost before = self.entries();
        if found {
            self.displays[k] = display;
            proof {
                assert(self.entries() =~= before.update(k as int, display@));
                lemma_map_of_update(before, k as int, display@);
            }
        } else {
            self.displays.insert(k, display);
            proof {
                let after = before.insert(k as int, display@);
                assert(self.entries() =~= after);
                assert forall|i: int, j: int| 0 <= i < j < after.len() implies id_lt(
                    #[trigger] after[i].id,
                    #[trigger] after[j].id,
                ) by {
                    if j < k {
                        assert(id_lt(before[i].id, before[j].id));
                    } else if j == k {
                        assert(id_lt(before[i].id, display@.id));
                    } else if i < k {
                        assert(id_lt(before[i].id, before[j - 1].id));
                    } else if i == k {
                        assert(after[j] == before[j - 1]);
                        assert(id_lt(display@.id, before[j - 1].id));
                    } else {
                        assert(id_lt(before[i - 1].id, before[j - 1].id));
                    }
                }
                lemma_map_of_insert(before, k as int, display@);
            }
        }
    }

    /// Takes the display with the identity out of the snapshot and returns
    /// it, if the snapshot holds one.
    pub fn remove(&mut self, id: &DisplayId) -> (r: Option<Display>)
        requires
            old(self).wf(),
        ensures
            final(self).wf(),
            final(self)@ == old(self)@.remove(id@),
            match r {
                Some(d) => old(self)@.contains_key(id@) && old(self)@[id@] == d@,
                None => !old(self)@.contains_key(id@),
            },
    {
        let (k, found) = self.lower_bound(id);
        let ghost before = self.entries();
        if found {
            let taken = self.displays.remove(k);
            proof {
                assert(self.entries() =~= before.remove(k as int));
                lemma_map_of_remove(before, k as int);
                lemma_ascending_distinct(before);
                lemma_map_of_values(before);
            }
            Some(taken)
        } else {
            proof {
                assert(map_of(before).remove(id@) =~= map_of(before));
            }
            None
        }
    }

    /// The snapshot that a list of records describes. Where two records have
    /// the same identity, the later one counts.
    pub fn from_records(records: Vec<Display>) -> (r: Self)
        ensures
            r.wf(),
            r@ == map_of(display_views(records@)),
    {
        let mut snapshot = Snapshot::new();
        let mut i: usize = 0;
        let ghost all = display_views(records@);
        while i < records.len()
            invariant
                0 <= i <= records.len(),
                all == display_views(records@),
                snapshot.wf(),
                snapshot@ == map_of(all.take(i as int)),
            decreases records.len() - i,
        {
            snapshot.insert(records[i].clone());
            proof {
                assert(all.take(i + 1).drop_last() =~= all.take(i as int));
                assert(all.take(i + 1).last() == records@[i as int]@);
            }
            i += 1;
        }
        assert(all.take(i as int) =~= all);
        snapshot
    }

    /// The displays of the snapshot in canonical order.
    pub fn displays(&self) -> (r: &Vec<Display>)
        ensures
            display_views(r@) == self.entries(),
    {
        &self.displays
    }
}

impl Clone for Snapshot {
    fn clone(&self) -> (r: Self)
        ensures
            r.entries() == self.entries(),
    {
        let mut displays: Vec<Display> = Vec::new();
        let mut i: usize = 0;
        while i < self.displays.len()
            invariant
                0 <= i <= self.displays.len(),
                displays@.len() == i,
                forall|j: int| 0 <= j < i ==> (#[trigger] displays@[j])@ == self.displays@[j]@,
            decreases self.displays.len() - i,
        {
            displays.push(self.displays[i].clone());
            i += 1;
        }
        assert(display_views(displays@) =~= self.entries());
        Snapshot { displays }
    }
}

} // verus!
