//! What holds of every diff.

use vstd::prelude::*;
use crate::diff::{changes, diff_events, diff_from, mirror_change, origin_change, size_change};
use crate::display::DisplayView;
use crate::event::{wrapped, EventView};
use crate::id::{
    id_lt, lemma_id_lt_asymmetric, lemma_id_lt_irreflexive, lemma_id_lt_total,
    lemma_id_lt_transitive, DisplayIdView,
};
use crate::snapshot::{
    ascending, distinct_ids, has_id, lemma_ascending_distinct, lemma_ascending_unique,
    lemma_map_of_domain, lemma_map_of_ignores_order, lemma_map_of_insert, lemma_map_of_values,
    map_of, Snapshot,
};

verus! {

/// The events that lead from one snapshot to another.
pub open spec fn diff_spec(earlier: Snapshot, later: Snapshot) -> Seq<EventView> {
    diff_events(earlier.entries(), later.entries())
}

proof fn lemma_diff_from_self(s: Seq<DisplayView>, i: int)
    requires
        0 <= i <= s.len(),
    ensures
        diff_from(s, s, i, i) == Seq::<EventView>::empty(),
    decreases s.len() - i,
{
    if i < s.len() {
        lemma_id_lt_irreflexive(s[i].id);
        lemma_diff_from_self(s, i + 1);
        assert(changes(s[i], s[i]) =~= Seq::<EventView>::empty());
        assert(diff_from(s, s, i, i) =~= Seq::<EventView>::empty());
    }
}

/// Nothing leads from a snapshot to itself: its diff with itself is empty.
pub proof fn lemma_diff_self_is_empty(s: Snapshot)
    ensures
        diff_spec(s, s) == Seq::<EventView>::empty(),
{
    lemma_diff_from_self(s.entries(), 0);
}

proof fn lemma_diff_from_after_added(s: Seq<DisplayView>, t: Seq<DisplayView>, k: int, i: int)
    requires
        0 <= k <= i <= s.len(),
        t.len() == s.len() + 1,
        forall|p: int| k <= p < s.len() ==> s[p] == t[p + 1],
    ensures
        diff_from(s, t, i, i + 1) == Seq::<EventView>::empty(),
        diff_from(t, s, i + 1, i) == Seq::<EventView>::empty(),
    decreases s.len() - i,
{
    if i < s.len() {
        lemma_id_lt_irreflexive(s[i].id);
        lemma_diff_from_after_added(s, t, k, i + 1);
        assert(changes(s[i], s[i]) =~= Seq::<EventView>::empty());
        assert(diff_from(s, t, i, i + 1) =~= Seq::<EventView>::empty());
        assert(diff_from(t, s, i + 1, i) =~= Seq::<EventView>::empty());
    }
}

proof fn lemma_diff_from_before_added(s: Seq<DisplayView>, t: Seq<DisplayView>, k: int, i: int)
    requires
        0 <= i <= k <= s.len(),
        t.len() == s.len() + 1,
        forall|p: int| 0 <= p < k ==> s[p] == t[p],
        forall|p: int| k <= p < s.len() ==> s[p] == t[p + 1],
        k < s.len() ==> id_lt(t[k].id, s[k].id),
    ensures
        diff_from(s, t, i, i) == seq![EventView::Added(t[k])],
        diff_from(t, s, i, i) == seq![EventView::Removed(t[k].id)],
    decreases k - i,
{
    if i < k {
        lemma_id_lt_irreflexive(s[i].id);
        lemma_diff_from_before_added(s, t, k, i + 1);
        assert(changes(s[i], s[i]) =~= Seq::<EventView>::empty());
        assert(diff_from(s, t, i, i) =~= seq![EventView::Added(t[k])]);
        assert(diff_from(t, s, i, i) =~= seq![EventView::Removed(t[k].id)]);
    } else {
        lemma_diff_from_after_added(s, t, k, k);
        if k < s.len() {
            lemma_id_lt_asymmetric(t[k].id, s[k].id);
        }
        assert(diff_from(s, t, i, i) =~= seq![EventView::Added(t[k])]);
        assert(diff_from(t, s, i, i) =~= seq![EventView::Removed(t[k].id)]);
    }
}

/// In an ascending sequence without the identity there is one place at
/// which a record with that identity keeps the sequence ascending.
proof fn lemma_insertion_point(s: Seq<DisplayView>, id: DisplayIdView) -> (k: int)
    requires
        ascending(s),
        !has_id(s, id),
    ensures
        0 <= k <= s.len(),
        forall|i: int| 0 <= i < k ==> id_lt(#[trigger] s[i].id, id),
        forall|i: int| k <= i < s.len() ==> id_lt(id, #[trigger] s[i].id),
    decreases s.len(),
{
    if s.len() == 0 {
        0
    } else if id_lt(s.last().id, id) {
        assert forall|i: int| 0 <= i < s.len() implies id_lt(#[trigger] s[i].id, id) by {
            if i < s.len() - 1 {
                assert(id_lt(s[i].id, s[s.len() - 1].id));
                lemma_id_lt_transitive(s[i].id, s.last().id, id);
            }
        }
        s.len() as int
    } else {
        let front = s.drop_last();
        assert(ascending(front)) by {
            assert forall|p: int, q: int| 0 <= p < q < front.len() implies id_lt(
                #[trigger] front[p].id,
                #[trigger] front[q].id,
            ) by {
                assert(id_lt(s[p].id, s[q].id));
            }
        }
        assert(!has_id(front, id)) by {
            if has_id(front, id) {
                let p = choose|p: int| 0 <= p < front.len() && #[trigger] front[p].id == id;
                assert(s[p].id == id);
            }
        }
        let k = lemma_insertion_point(front, id);
        assert(s[s.len() - 1].id != id);
        if !id_lt(id, s.last().id) {
            lemma_id_lt_total(id, s.last().id);
        }
        assert forall|i: int| k <= i < s.len() implies id_lt(id, #[trigger] s[i].id) by {
            if i < s.len() - 1 {
                assert(front[i].id == s[i].id);
            }
        }
        assert forall|i: int| 0 <= i < k implies id_lt(#[trigger] s[i].id, id) by {
            assert(front[i].id == s[i].id);
        }
        k
    }
}

/// Where `later` is `earlier` with exactly one display more, the diff from
/// the one to the other is that display added and nothing else, and the diff
/// back is that display removed and nothing else.
pub proof fn lemma_diff_one_added(earlier: Snapshot, later: Snapshot, display: DisplayView)
    requires
        earlier.wf(),
        later.wf(),
        !earlier@.contains_key(display.id),
        later@ == earlier@.insert(display.id, display),
    ensures
        diff_spec(earlier, later) == seq![EventView::Added(display)],
        diff_spec(later, earlier) == seq![EventView::Removed(display.id)],
{
    let s = earlier.entries();
    lemma_map_of_domain(s);
    let k = lemma_insertion_point(s, display.id);
    let t = s.insert(k, display);
    assert forall|i: int, j: int| 0 <= i < j < t.len() implies id_lt(
        #[trigger] t[i].id,
        #[trigger] t[j].id,
    ) by {
        if j < k {
            assert(id_lt(s[i].id, s[j].id));
        } else if j == k {
            assert(id_lt(s[i].id, display.id));
        } else if i < k {
            assert(id_lt(s[i].id, s[j - 1].id));
        } else if i == k {
            assert(t[j] == s[j - 1]);
            assert(id_lt(display.id, s[j - 1].id));
        } else {
            assert(id_lt(s[i - 1].id, s[j - 1].id));
        }
    }
    lemma_map_of_insert(s, k, display);
    lemma_ascending_unique(later.entries(), t);
    if k < s.len() {
        assert(id_lt(display.id, s[k].id));
    }
    lemma_diff_from_before_added(s, t, k, 0);
}

/// The diff goes by what the snapshots hold, not by the order in which the
/// records came: two snapshots made from the same records in different orders
/// are the same, and give the same diff against any third, on either side.
/// The records are such that no identity occurs twice among them.
pub proof fn lemma_diff_ignores_record_order(
    first: Seq<DisplayView>,
    second: Seq<DisplayView>,
    a: Snapshot,
    b: Snapshot,
    other: Snapshot,
)
    requires
        distinct_ids(first),
        distinct_ids(second),
        first.to_multiset() == second.to_multiset(),
        a.wf(),
        b.wf(),
        a@ == map_of(first),
        b@ == map_of(second),
    ensures
        a.entries() == b.entries(),
        diff_spec(a, other) == diff_spec(b, other),
        diff_spec(other, a) == diff_spec(other, b),
{
    assert forall|d: DisplayView| first.contains(d) <==> second.contains(d) by {
        vstd::seq_lib::to_multiset_contains(first, d);
        vstd::seq_lib::to_multiset_contains(second, d);
    }
    lemma_map_of_ignores_order(first, second);
    lemma_ascending_unique(a.entries(), b.entries());
}

/// Two snapshots that are the same mapping give the same diff against any
/// third, on either side: a diff depends on the mappings alone.
pub proof fn lemma_diff_depends_on_mapping(a: Snapshot, b: Snapshot, other: Snapshot)
    requires
        a.wf(),
        b.wf(),
        a@ == b@,
    ensures
        diff_spec(a, other) == diff_spec(b, other),
        diff_spec(other, a) == diff_spec(other, b),
{
    lemma_ascending_unique(a.entries(), b.entries());
}

/// What an event says of the two mappings it leads between.
pub open spec fn explained(
    e: EventView,
    earlier: Map<DisplayIdView, DisplayView>,
    later: Map<DisplayIdView, DisplayView>,
) -> bool {
    match e {
        EventView::Added(d) => !earlier.contains_key(d.id) && later.contains_key(d.id) && later[d.id]
            == d,
        EventView::Removed(id) => earlier.contains_key(id) && !later.contains_key(id),
        EventView::SizeChanged { display, before, after } => {
            &&& earlier.contains_key(display.id)
            &&& later.contains_key(display.id)
            &&& later[display.id] == display
            &&& before == earlier[display.id].size
            &&& after == display.size
            &&& before != after
        },
        EventView::OriginChanged { display, before, after } => {
            &&& earlier.contains_key(display.id)
            &&& later.contains_key(display.id)
            &&& later[display.id] == display
            &&& before == earlier[display.id].origin
            &&& after == display.origin
            &&& before != after
        },
        EventView::Mirrored(d) => {
            &&& earlier.contains_key(d.id)
            &&& later.contains_key(d.id)
            &&& later[d.id] == d
            &&& !earlier[d.id].is_mirrored
            &&& d.is_mirrored
        },
        EventView::UnMirrored(d) => {
            &&& earlier.contains_key(d.id)
            &&& later.contains_key(d.id)
            &&& later[d.id] == d
            &&& earlier[d.id].is_mirrored
            &&& !d.is_mirrored
        },
    }
}

/// Whether the displays dealt with lie before all that are still to come.
spec fn parted(s: Seq<DisplayView>, t: Seq<DisplayView>, i: int, j: int) -> bool {
    &&& forall|p: int, q: int|
        0 <= p < i && j <= q < t.len() ==> id_lt(#[trigger] s[p].id, #[trigger] t[q].id)
    &&& forall|p: int, q: int|
        i <= p < s.len() && 0 <= q < j ==> id_lt(#[trigger] t[q].id, #[trigger] s[p].id)
}

proof fn lemma_parted_after_removed(s: Seq<DisplayView>, t: Seq<DisplayView>, i: int, j: int)
    requires
        ascending(s),
        ascending(t),
        0 <= i < s.len(),
        0 <= j <= t.len(),
        parted(s, t, i, j),
        j < t.len() ==> id_lt(s[i].id, t[j].id),
    ensures
        parted(s, t, i + 1, j),
{
    assert forall|p: int, q: int| 0 <= p < i + 1 && j <= q < t.len() implies id_lt(
        #[trigger] s[p].id,
        #[trigger] t[q].id,
    ) by {
        if p == i {
            if q > j {
                assert(id_lt(t[j].id, t[q].id));
                lemma_id_lt_transitive(s[i].id, t[j].id, t[q].id);
            }
        }
    }
    assert forall|p: int, q: int| i + 1 <= p < s.len() && 0 <= q < j implies id_lt(
        #[trigger] t[q].id,
        #[trigger] s[p].id,
    ) by {}
}

proof fn lemma_parted_after_added(s: Seq<DisplayView>, t: Seq<DisplayView>, i: int, j: int)
    requires
        ascending(s),
        ascending(t),
        0 <= i <= s.len(),
        0 <= j < t.len(),
        parted(s, t, i, j),
        i < s.len() ==> id_lt(t[j].id, s[i].id),
    ensures
        parted(s, t, i, j + 1),
{
    assert forall|p: int, q: int| i <= p < s.len() && 0 <= q < j + 1 implies id_lt(
        #[trigger] t[q].id,
        #[trigger] s[p].id,
    ) by {
        if q == j {
            if p > i {
                assert(id_lt(s[i].id, s[p].id));
                lemma_id_lt_transitive(t[j].id, s[i].id, s[p].id);
            }
        }
    }
    assert forall|p: int, q: int| 0 <= p < i && j + 1 <= q < t.len() implies id_lt(
        #[trigger] s[p].id,
        #[trigger] t[q].id,
    ) by {}
}

proof fn lemma_parted_after_both(s: Seq<DisplayView>, t: Seq<DisplayView>, i: int, j: int)
    requires
        ascending(s),
        ascending(t),
        0 <= i < s.len(),
        0 <= j < t.len(),
        parted(s, t, i, j),
        s[i].id == t[j].id,
    ensures
        parted(s, t, i + 1, j + 1),
{
    assert forall|p: int, q: int| 0 <= p < i + 1 && j + 1 <= q < t.len() implies id_lt(
        #[trigger] s[p].id,
        #[trigger] t[q].id,
    ) by {
        if p == i {
            assert(id_lt(t[j].id, t[q].id));
        }
    }
    assert forall|p: int, q: int| i + 1 <= p < s.len() && 0 <= q < j + 1 implies id_lt(
        #[trigger] t[q].id,
        #[trigger] s[p].id,
    ) by {
        if q == j {
            assert(id_lt(s[i].id, s[p].id));
        }
    }
}

proof fn lemma_absent(s: Seq<DisplayView>, id: DisplayIdView, k: int)
    requires
        0 <= k <= s.len(),
        forall|p: int| 0 <= p < k ==> id_lt(#[trigger] s[p].id, id),
        forall|p: int| k <= p < s.len() ==> id_lt(id, #[trigger] s[p].id),
    ensures
        !map_of(s).contains_key(id),
{
    lemma_map_of_domain(s);
    if has_id(s, id) {
        let p = choose|p: int| 0 <= p < s.len() && #[trigger] s[p].id == id;
        lemma_id_lt_irreflexive(id);
        if p < k {
            assert(id_lt(s[p].id, id));
        } else {
            assert(id_lt(id, s[p].id));
        }
    }
}

proof fn lemma_diff_from_explained(s: Seq<DisplayView>, t: Seq<DisplayView>, i: int, j: int)
    requires
        ascending(s),
        ascending(t),
        0 <= i <= s.len(),
        0 <= j <= t.len(),
        parted(s, t, i, j),
    ensures
        forall|k: int|
            0 <= k < diff_from(s, t, i, j).len() ==> explained(
                #[trigger] diff_from(s, t, i, j)[k],
                map_of(s),
                map_of(t),
            ),
    decreases s.len() - i + t.len() - j,
{
    let here = diff_from(s, t, i, j);
    let removes = i < s.len() && (j >= t.len() || id_lt(s[i].id, t[j].id));
    let adds = !removes && j < t.len() && (i >= s.len() || id_lt(t[j].id, s[i].id));
    if removes {
        lemma_parted_after_removed(s, t, i, j);
        lemma_diff_from_explained(s, t, i + 1, j);
        let rest = diff_from(s, t, i + 1, j);
        assert(here =~= seq![EventView::Removed(s[i].id)] + rest);
        lemma_has_id_from_step(s, i, s[i].id);
        lemma_absent(t, s[i].id, j);
        assert forall|k: int| 0 <= k < here.len() implies explained(
            #[trigger] here[k],
            map_of(s),
            map_of(t),
        ) by {
            if k > 0 {
                assert(here[k] == rest[k - 1]);
            }
        }
    } else if adds {
        lemma_parted_after_added(s, t, i, j);
        lemma_diff_from_explained(s, t, i, j + 1);
        let rest = diff_from(s, t, i, j + 1);
        assert(here =~= seq![EventView::Added(t[j])] + rest);
        lemma_has_id_from_step(t, j, t[j].id);
        lemma_absent(s, t[j].id, i);
        assert forall|k: int| 0 <= k < here.len() implies explained(
            #[trigger] here[k],
            map_of(s),
            map_of(t),
        ) by {
            if k > 0 {
                assert(here[k] == rest[k - 1]);
            }
        }
    } else if i < s.len() && j < t.len() {
        lemma_id_lt_total(s[i].id, t[j].id);
        lemma_parted_after_both(s, t, i, j);
        lemma_diff_from_explained(s, t, i + 1, j + 1);
        let rest = diff_from(s, t, i + 1, j + 1);
        let own = changes(s[i], t[j]);
        assert(here =~= own + rest);
        lemma_has_id_from_step(s, i, s[i].id);
        lemma_has_id_from_step(t, j, t[j].id);
        lemma_changes_explained(s[i], t[j], map_of(s), map_of(t));
        assert forall|k: int| 0 <= k < here.len() implies explained(
            #[trigger] here[k],
            map_of(s),
            map_of(t),
        ) by {
            if k >= own.len() {
                assert(here[k] == rest[k - own.len()]);
            } else {
                assert(here[k] == own[k]);
            }
        }
    }
}

proof fn lemma_changes_explained(
    d: DisplayView,
    e: DisplayView,
    earlier: Map<DisplayIdView, DisplayView>,
    later: Map<DisplayIdView, DisplayView>,
)
    requires
        d.id == e.id,
        earlier.contains_key(d.id),
        earlier[d.id] == d,
        later.contains_key(e.id),
        later[e.id] == e,
    ensures
        forall|k: int|
            0 <= k < changes(d, e).len() ==> explained(#[trigger] changes(d, e)[k], earlier, later),
{
    let a = size_change(d, e);
    let b = origin_change(d, e);
    let c = mirror_change(d, e);
    assert forall|k: int| 0 <= k < changes(d, e).len() implies explained(
        #[trigger] changes(d, e)[k],
        earlier,
        later,
    ) by {
        if k < a.len() {
            assert(changes(d, e)[k] == a[k]);
        } else if k < a.len() + b.len() {
            assert(changes(d, e)[k] == b[k - a.len()]);
        } else {
            assert(changes(d, e)[k] == c[k - a.len() - b.len()]);
        }
    }
}

/// Every event of a diff is borne out by the two snapshots: a display that
/// is reported added is in the later one only, one reported removed is in the
/// earlier one only, and one whose attribute is reported changed is in both,
/// with that attribute different. So no event is about a display that is in
/// neither snapshot.
pub proof fn lemma_diff_is_explained(earlier: Snapshot, later: Snapshot)
    requires
        earlier.wf(),
        later.wf(),
    ensures
        forall|k: int|
            0 <= k < diff_spec(earlier, later).len() ==> explained(
                #[trigger] diff_spec(earlier, later)[k],
                earlier@,
                later@,
            ),
{
    lemma_diff_from_explained(earlier.entries(), later.entries(), 0, 0);
}

/// In one diff an event that removes a display never stands beside an event
/// about the same display that wraps as available.
pub proof fn lemma_removed_is_never_available(earlier: Snapshot, later: Snapshot, i: int, j: int)
    requires
        earlier.wf(),
        later.wf(),
        0 <= i < diff_spec(earlier, later).len(),
        0 <= j < diff_spec(earlier, later).len(),
        diff_spec(earlier, later)[i] is Removed,
        diff_spec(earlier, later)[i].id() == diff_spec(earlier, later)[j].id(),
    ensures
        wrapped(diff_spec(earlier, later)[j]) is NotAvailable,
{
    lemma_diff_is_explained(earlier, later);
    let events = diff_spec(earlier, later);
    assert(explained(events[i], earlier@, later@));
    assert(explained(events[j], earlier@, later@));
}

/// Whether one event undoes the other: added against removed, mirrored
/// against unmirrored, and a changed attribute against the change back, with
/// before and after exchanged. Both are about the same display.
pub open spec fn opposite(e: EventView, f: EventView) -> bool {
    match (e, f) {
        (EventView::Added(d), EventView::Removed(id)) => d.id == id,
        (EventView::Removed(id), EventView::Added(d)) => d.id == id,
        (
            EventView::SizeChanged { display: d, before: b, after: a },
            EventView::SizeChanged { display: d2, before: b2, after: a2 },
        ) => d.id == d2.id && b == a2 && a == b2,
        (
            EventView::OriginChanged { display: d, before: b, after: a },
            EventView::OriginChanged { display: d2, before: b2, after: a2 },
        ) => d.id == d2.id && b == a2 && a == b2,
        (EventView::Mirrored(d), EventView::UnMirrored(d2)) => d.id == d2.id,
        (EventView::UnMirrored(d), EventView::Mirrored(d2)) => d.id == d2.id,
        _ => false,
    }
}

/// Whether two sequences of events undo each other place by place.
pub open spec fn opposite_events(x: Seq<EventView>, y: Seq<EventView>) -> bool {
    &&& x.len() == y.len()
    &&& forall|k: int| 0 <= k < x.len() ==> opposite(#[trigger] x[k], y[k])
}

proof fn lemma_opposite_joined(
    a: Seq<EventView>,
    b: Seq<EventView>,
    c: Seq<EventView>,
    d: Seq<EventView>,
)
    requires
        opposite_events(a, c),
        opposite_events(b, d),
    ensures
        opposite_events(a + b, c + d),
{
    assert forall|k: int| 0 <= k < (a + b).len() implies opposite(#[trigger] (a + b)[k], (c + d)[k]) by {
        if k < a.len() {
            assert((a + b)[k] == a[k] && (c + d)[k] == c[k]);
        } else {
            assert((a + b)[k] == b[k - a.len()] && (c + d)[k] == d[k - a.len()]);
        }
    }
}

proof fn lemma_changes_opposite(d: DisplayView, e: DisplayView)
    requires
        d.id == e.id,
    ensures
        opposite_events(changes(d, e), changes(e, d)),
{
    lemma_opposite_joined(
        size_change(d, e),
        origin_change(d, e),
        size_change(e, d),
        origin_change(e, d),
    );
    lemma_opposite_joined(
        size_change(d, e) + origin_change(d, e),
        mirror_change(d, e),
        size_change(e, d) + origin_change(e, d),
        mirror_change(e, d),
    );
}

proof fn lemma_diff_from_opposite(s: Seq<DisplayView>, t: Seq<DisplayView>, i: int, j: int)
    requires
        0 <= i <= s.len(),
        0 <= j <= t.len(),
    ensures
        opposite_events(diff_from(s, t, i, j), diff_from(t, s, j, i)),
    decreases s.len() - i + t.len() - j,
{
    let removes = i < s.len() && (j >= t.len() || id_lt(s[i].id, t[j].id));
    let adds = !removes && j < t.len() && (i >= s.len() || id_lt(t[j].id, s[i].id));
    if removes {
        if j < t.len() {
            lemma_id_lt_asymmetric(s[i].id, t[j].id);
        }
        lemma_diff_from_opposite(s, t, i + 1, j);
        lemma_opposite_joined(
            seq![EventView::Removed(s[i].id)],
            diff_from(s, t, i + 1, j),
            seq![EventView::Added(s[i])],
            diff_from(t, s, j, i + 1),
        );
    } else if adds {
        lemma_diff_from_opposite(s, t, i, j + 1);
        lemma_opposite_joined(
            seq![EventView::Added(t[j])],
            diff_from(s, t, i, j + 1),
            seq![EventView::Removed(t[j].id)],
            diff_from(t, s, j + 1, i),
        );
    } else if i < s.len() && j < t.len() {
        lemma_id_lt_total(s[i].id, t[j].id);
        lemma_diff_from_opposite(s, t, i + 1, j + 1);
        lemma_changes_opposite(s[i], t[j]);
        lemma_opposite_joined(
            changes(s[i], t[j]),
            diff_from(s, t, i + 1, j + 1),
            changes(t[j], s[i]),
            diff_from(t, s, j + 1, i + 1),
        );
    }
}

/// A diff is symmetric: the diff back undoes the diff forth event by event.
/// It has an added display for every removed one and a removed one for every
/// added one, and reports every changed attribute with before and after
/// exchanged.
pub proof fn lemma_diff_is_symmetric(earlier: Snapshot, later: Snapshot)
    ensures
        opposite_events(diff_spec(earlier, later), diff_spec(later, earlier)),
{
    lemma_diff_from_opposite(earlier.entries(), later.entries(), 0, 0);
}

/// Whether an event is about the display with the identity.
pub open spec fn is_about(id: DisplayIdView) -> spec_fn(EventView) -> bool {
    |e: EventView| e.id() == id
}

/// The events about one display among `events`, in their order.
pub open spec fn about(events: Seq<EventView>, id: DisplayIdView) -> Seq<EventView> {
    events.filter(is_about(id))
}

/// What is to be reported of one display between two mappings: its removal
/// where only the earlier has it, its addition where only the later has it,
/// the changes of its attributes where both have it, nothing where neither
/// has it.
pub open spec fn report(
    id: DisplayIdView,
    earlier: Map<DisplayIdView, DisplayView>,
    later: Map<DisplayIdView, DisplayView>,
) -> Seq<EventView> {
    if earlier.contains_key(id) {
        if later.contains_key(id) {
            changes(earlier[id], later[id])
        } else {
            seq![EventView::Removed(id)]
        }
    } else if later.contains_key(id) {
        seq![EventView::Added(later[id])]
    } else {
        Seq::empty()
    }
}

proof fn lemma_about_all(x: Seq<EventView>, id: DisplayIdView)
    requires
        forall|k: int| 0 <= k < x.len() ==> (#[trigger] x[k]).id() == id,
    ensures
        about(x, id) == x,
    decreases x.len(),
{
    reveal(Seq::filter);
    if x.len() > 0 {
        lemma_about_all(x.drop_last(), id);
        assert(x.drop_last().push(x.last()) =~= x);
    }
}

proof fn lemma_about_none(x: Seq<EventView>, id: DisplayIdView)
    requires
        forall|k: int| 0 <= k < x.len() ==> (#[trigger] x[k]).id() != id,
    ensures
        about(x, id) == Seq::<EventView>::empty(),
    decreases x.len(),
{
    reveal(Seq::filter);
    if x.len() > 0 {
        lemma_about_none(x.drop_last(), id);
    }
}

proof fn lemma_changes_ids(d: DisplayView, e: DisplayView)
    ensures
        forall|k: int| 0 <= k < changes(d, e).len() ==> (#[trigger] changes(d, e)[k]).id() == e.id,
{
    let x = changes(d, e);
    let a = size_change(d, e);
    let b = origin_change(d, e);
    let c = mirror_change(d, e);
    assert forall|k: int| 0 <= k < x.len() implies (#[trigger] x[k]).id() == e.id by {
        if k < a.len() {
            assert(x[k] == a[k]);
        } else if k < a.len() + b.len() {
            assert(x[k] == b[k - a.len()]);
        } else {
            assert(x[k] == c[k - a.len() - b.len()]);
        }
    }
}

proof fn lemma_about_changes(d: DisplayView, e: DisplayView, id: DisplayIdView)
    ensures
        about(changes(d, e), id) == if e.id == id {
            changes(d, e)
        } else {
            Seq::<EventView>::empty()
        },
{
    lemma_changes_ids(d, e);
    if e.id == id {
        lemma_about_all(changes(d, e), id);
    } else {
        lemma_about_none(changes(d, e), id);
    }
}

/// Whether a record at or after place `i` has the identity.
spec fn has_id_from(s: Seq<DisplayView>, i: int, id: DisplayIdView) -> bool {
    exists|p: int| i <= p < s.len() && #[trigger] s[p].id == id
}

proof fn lemma_has_id_from_step(s: Seq<DisplayView>, i: int, id: DisplayIdView)
    requires
        ascending(s),
        0 <= i < s.len(),
    ensures
        has_id_from(s, i, id) == (s[i].id == id || has_id_from(s, i + 1, id)),
        s[i].id == id ==> !has_id_from(s, i + 1, id),
        has_id_from(s, i, id) ==> map_of(s).contains_key(id),
        map_of(s).contains_key(s[i].id),
        map_of(s)[s[i].id] == s[i],
{
    lemma_ascending_distinct(s);
    lemma_map_of_domain(s);
    lemma_map_of_values(s);
    if has_id_from(s, i, id) {
        let p = choose|p: int| i <= p < s.len() && #[trigger] s[p].id == id;
        assert(has_id(s, id));
        if p > i {
            assert(has_id_from(s, i + 1, id));
            assert(s[i].id != s[p].id);
        }
    }
    if has_id_from(s, i + 1, id) {
        let p = choose|p: int| i + 1 <= p < s.len() && #[trigger] s[p].id == id;
        assert(i <= p);
        assert(s[i].id != s[p].id);
    }
    assert(has_id(s, s[i].id));
}

proof fn lemma_has_id_from_absent(s: Seq<DisplayView>, i: int, id: DisplayIdView)
    requires
        0 <= i <= s.len(),
        !map_of(s).contains_key(id),
    ensures
        !has_id_from(s, i, id),
{
    lemma_map_of_domain(s);
    if has_id_from(s, i, id) {
        let p = choose|p: int| i <= p < s.len() && #[trigger] s[p].id == id;
        assert(has_id(s, id));
    }
}

proof fn lemma_about_head(
    head: Seq<EventView>,
    rest: Seq<EventView>,
    first: DisplayIdView,
    id: DisplayIdView,
)
    requires
        forall|k: int| 0 <= k < head.len() ==> (#[trigger] head[k]).id() == first,
    ensures
        first == id ==> about(head + rest, id) == head + about(rest, id),
        first != id ==> about(head + rest, id) == about(rest, id),
{
    Seq::filter_distributes_over_add(head, rest, is_about(id));
    if first == id {
        lemma_about_all(head, id);
    } else {
        lemma_about_none(head, id);
        assert(Seq::<EventView>::empty() + about(rest, id) =~= about(rest, id));
    }
}

proof fn lemma_about_diff_from(
    s: Seq<DisplayView>,
    t: Seq<DisplayView>,
    i: int,
    j: int,
    id: DisplayIdView,
)
    requires
        ascending(s),
        ascending(t),
        0 <= i <= s.len(),
        0 <= j <= t.len(),
        parted(s, t, i, j),
    ensures
        about(diff_from(s, t, i, j), id) == if has_id_from(s, i, id) || has_id_from(t, j, id) {
            report(id, map_of(s), map_of(t))
        } else {
            Seq::<EventView>::empty()
        },
    decreases s.len() - i + t.len() - j,
{
    let here = diff_from(s, t, i, j);
    let removes = i < s.len() && (j >= t.len() || id_lt(s[i].id, t[j].id));
    let adds = !removes && j < t.len() && (i >= s.len() || id_lt(t[j].id, s[i].id));
    if removes {
        lemma_parted_after_removed(s, t, i, j);
        lemma_about_diff_from(s, t, i + 1, j, id);
        let head = seq![EventView::Removed(s[i].id)];
        let rest = diff_from(s, t, i + 1, j);
        assert(here == head + rest);
        lemma_about_head(head, rest, s[i].id, id);
        lemma_has_id_from_step(s, i, id);
        if s[i].id == id {
            lemma_absent(t, id, j);
            lemma_has_id_from_absent(t, j, id);
            assert(head + Seq::<EventView>::empty() =~= head);
        }
    } else if adds {
        lemma_parted_after_added(s, t, i, j);
        lemma_about_diff_from(s, t, i, j + 1, id);
        let head = seq![EventView::Added(t[j])];
        let rest = diff_from(s, t, i, j + 1);
        assert(here == head + rest);
        lemma_about_head(head, rest, t[j].id, id);
        lemma_has_id_from_step(t, j, id);
        if t[j].id == id {
            lemma_absent(s, id, i);
            lemma_has_id_from_absent(s, i, id);
            assert(head + Seq::<EventView>::empty() =~= head);
        }
    } else if i < s.len() && j < t.len() {
        lemma_id_lt_total(s[i].id, t[j].id);
        lemma_parted_after_both(s, t, i, j);
        lemma_about_diff_from(s, t, i + 1, j + 1, id);
        let head = changes(s[i], t[j]);
        let rest = diff_from(s, t, i + 1, j + 1);
        assert(here == head + rest);
        lemma_changes_ids(s[i], t[j]);
        lemma_about_head(head, rest, t[j].id, id);
        lemma_has_id_from_step(s, i, id);
        lemma_has_id_from_step(t, j, id);
        if t[j].id == id {
            assert(head + Seq::<EventView>::empty() =~= head);
        }
    } else {
        reveal(Seq::filter);
        assert(!has_id_from(s, i, id));
        assert(!has_id_from(t, j, id));
    }
}

/// Of every display a diff reports exactly what is to be reported of it,
/// in the order size, origin, mirroring: the events about the display are its
/// removal where only the earlier snapshot has it, its addition where only
/// the later has it, the changes of its attributes where both have it, and
/// none where neither has it.
pub proof fn lemma_diff_of_one_display(earlier: Snapshot, later: Snapshot, id: DisplayIdView)
    requires
        earlier.wf(),
        later.wf(),
    ensures
        about(diff_spec(earlier, later), id) == report(id, earlier@, later@),
{
    let s = earlier.entries();
    let t = later.entries();
    lemma_about_diff_from(s, t, 0, 0, id);
    lemma_map_of_domain(s);
    lemma_map_of_domain(t);
    if has_id(s, id) {
        let p = choose|p: int| 0 <= p < s.len() && #[trigger] s[p].id == id;
        assert(has_id_from(s, 0, id));
    }
    if has_id(t, id) {
        let q = choose|q: int| 0 <= q < t.len() && #[trigger] t[q].id == id;
        assert(has_id_from(t, 0, id));
    }
    if has_id_from(s, 0, id) {
        let p = choose|p: int| 0 <= p < s.len() && #[trigger] s[p].id == id;
        assert(has_id(s, id));
    }
    if has_id_from(t, 0, id) {
        let q = choose|q: int| 0 <= q < t.len() && #[trigger] t[q].id == id;
        assert(has_id(t, id));
    }
}

/// Whether the identities of the events never descend in the canonical
/// order, so that the events of one display stand together.
pub open spec fn in_canonical_order(events: Seq<EventView>) -> bool {
    forall|k: int, l: int|
        0 <= k < l < events.len() ==> !id_lt(#[trigger] events[l].id(), #[trigger] events[k].id())
}

/// Whether the identity comes at or after one of the identities next in
/// line.
spec fn reaches(
    s: Seq<DisplayView>,
    t: Seq<DisplayView>,
    i: int,
    j: int,
    id: DisplayIdView,
) -> bool {
    ||| i < s.len() && !id_lt(id, s[i].id)
    ||| j < t.len() && !id_lt(id, t[j].id)
}

proof fn lemma_diff_from_ordered(s: Seq<DisplayView>, t: Seq<DisplayView>, i: int, j: int)
    requires
        ascending(s),
        ascending(t),
        0 <= i <= s.len(),
        0 <= j <= t.len(),
    ensures
        in_canonical_order(diff_from(s, t, i, j)),
        forall|k: int|
            0 <= k < diff_from(s, t, i, j).len() ==> reaches(
                s,
                t,
                i,
                j,
                (#[trigger] diff_from(s, t, i, j)[k]).id(),
            ),
    decreases s.len() - i + t.len() - j,
{
    let here = diff_from(s, t, i, j);
    let removes = i < s.len() && (j >= t.len() || id_lt(s[i].id, t[j].id));
    let adds = !removes && j < t.len() && (i >= s.len() || id_lt(t[j].id, s[i].id));
    let both = !removes && !adds && i < s.len() && j < t.len();
    if removes || adds || both {
        let i2 = if adds { i } else { i + 1 };
        let j2 = if removes { j } else { j + 1 };
        let first = if adds { t[j].id } else { s[i].id };
        let head = if removes {
            seq![EventView::Removed(s[i].id)]
        } else if adds {
            seq![EventView::Added(t[j])]
        } else {
            changes(s[i], t[j])
        };
        let rest = diff_from(s, t, i2, j2);
        lemma_diff_from_ordered(s, t, i2, j2);
        assert(here =~= head + rest);
        lemma_id_lt_irreflexive(first);
        if both {
            lemma_id_lt_total(s[i].id, t[j].id);
            lemma_changes_ids(s[i], t[j]);
        }
        assert(forall|k: int| 0 <= k < head.len() ==> (#[trigger] head[k]).id() == first);
        // The identity just dealt with lies before all that are next in line.
        assert(i2 < s.len() ==> id_lt(first, s[i2].id)) by {
            if i2 < s.len() && i2 > i {
                assert(id_lt(s[i].id, s[i2].id));
            }
        }
        assert(j2 < t.len() ==> id_lt(first, t[j2].id)) by {
            if j2 < t.len() && j2 > j {
                assert(id_lt(t[j].id, t[j2].id));
            }
        }
        assert forall|k: int| 0 <= k < rest.len() implies !id_lt(
            (#[trigger] rest[k]).id(),
            first,
        ) by {
            let id = rest[k].id();
            assert(reaches(s, t, i2, j2, id));
            if id_lt(id, first) {
                if i2 < s.len() && !id_lt(id, s[i2].id) {
                    lemma_id_lt_transitive(id, first, s[i2].id);
                } else {
                    lemma_id_lt_transitive(id, first, t[j2].id);
                }
            }
        }
        assert forall|k: int, l: int| 0 <= k < l < here.len() implies !id_lt(
            #[trigger] here[l].id(),
            #[trigger] here[k].id(),
        ) by {
            if l < head.len() {
                assert(here[k] == head[k] && here[l] == head[l]);
            } else if k < head.len() {
                assert(here[k] == head[k] && here[l] == rest[l - head.len()]);
            } else {
                assert(here[k] == rest[k - head.len()] && here[l] == rest[l - head.len()]);
            }
        }
        assert forall|k: int| 0 <= k < here.len() implies reaches(
            s,
            t,
            i,
            j,
            (#[trigger] here[k]).id(),
        ) by {
            if k < head.len() {
                assert(here[k] == head[k]);
            } else {
                assert(here[k] == rest[k - head.len()]);
            }
            assert(!id_lt(here[k].id(), first));
        }
    }
}

/// The events of a diff stand in the canonical order of the displays they
/// are about.
pub proof fn lemma_diff_is_ordered(earlier: Snapshot, later: Snapshot)
    requires
        earlier.wf(),
        later.wf(),
    ensures
        in_canonical_order(diff_spec(earlier, later)),
{
    lemma_diff_from_ordered(earlier.entries(), later.entries(), 0, 0);
}

} // verus!
