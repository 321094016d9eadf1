//! The engine that compares two snapshots.
//!
//! A diff is the sequence of events that leads from one snapshot to another.
//! It depends on what the two snapshots hold and on nothing else. The
//! displays are walked in the canonical order of their identities; the events
//! of one display follow each other in a fixed order: size, origin, mirroring.

use vstd::prelude::*;
use crate::buffer::EventBuffer;
use crate::display::{Display, DisplayView};
use crate::event::{Event, EventView};
use crate::id::{id_lt, Position};
use crate::snapshot::Snapshot;

verus! {

/// The event for a changed size, if the size changed.
pub open spec fn size_change(old: DisplayView, new: DisplayView) -> Seq<EventView> {
    if old.size != new.size {
        seq![EventView::SizeChanged { display: new, before: old.size, after: new.size }]
    } else {
        Seq::empty()
    }
}

/// The event for a changed origin, if the origin changed.
pub open spec fn origin_change(old: DisplayView, new: DisplayView) -> Seq<EventView> {
    if old.origin != new.origin {
        seq![EventView::OriginChanged { display: new, before: old.origin, after: new.origin }]
    } else {
        Seq::empty()
    }
}

/// The event for a display that began or ceased to be mirrored, if it did.
pub open spec fn mirror_change(old: DisplayView, new: DisplayView) -> Seq<EventView> {
    if !old.is_mirrored && new.is_mirrored {
        seq![EventView::Mirrored(new)]
    } else if old.is_mirrored && !new.is_mirrored {
        seq![EventView::UnMirrored(new)]
    } else {
        Seq::empty()
    }
}

/// The events of one display that is in both snapshots: one for each
/// attribute that changed, in the order size, origin, mirroring.
pub open spec fn changes(old: DisplayView, new: DisplayView) -> Seq<EventView> {
    size_change(old, new) + origin_change(old, new) + mirror_change(old, new)
}

/// The events that lead from `old` to `new` when the first `i` displays of
/// `old` and the first `j` of `new` have been dealt with. Of the two displays
/// next in line the one with the earlier identity is in one snapshot only:
/// it was removed, or added. Where both have the same identity, the display
/// is in both, and its attributes are compared.
pub open spec fn diff_from(old: Seq<DisplayView>, new: Seq<DisplayView>, i: int, j: int) -> Seq<
    EventView,
>
    decreases old.len() - i + new.len() - j,
{
    if i < 0 || j < 0 || i > old.len() || j > new.len() {
        Seq::empty()
    } else if i >= old.len() {
        if j >= new.len() {
            Seq::empty()
        } else {
            seq![EventView::Added(new[j])] + diff_from(old, new, i, j + 1)
        }
    } else if j >= new.len() {
        seq![EventView::Removed(old[i].id)] + diff_from(old, new, i + 1, j)
    } else if id_lt(old[i].id, new[j].id) {
        seq![EventView::Removed(old[i].id)] + diff_from(old, new, i + 1, j)
    } else if id_lt(new[j].id, old[i].id) {
        seq![EventView::Added(new[j])] + diff_from(old, new, i, j + 1)
    } else {
        changes(old[i], new[j]) + diff_from(old, new, i + 1, j + 1)
    }
}

/// The events that lead from the displays `old` to the displays `new`, both
/// in canonical order.
pub open spec fn diff_events(old: Seq<DisplayView>, new: Seq<DisplayView>) -> Seq<EventView> {
    diff_from(old, new, 0, 0)
}

/// Puts the events of one display that is in both snapshots into the batch.
pub fn push_changes(events: &mut EventBuffer, earlier: &Display, later: &Display)
    ensures
        final(events)@ == old(events)@ + changes(earlier@, later@),
{
    let ghost start = events@;
    if !(earlier.size == later.size) {
        events.push(
            Event::SizeChanged { display: later.clone(), before: earlier.size, after: later.size },
        );
    }
    assert(events@ =~= start + size_change(earlier@, later@));
    if !(earlier.origin == later.origin) {
        events.push(
            Event::OriginChanged {
                display: later.clone(),
                before: earlier.origin,
                after: later.origin,
            },
        );
    }
    assert(events@ =~= start + size_change(earlier@, later@) + origin_change(earlier@, later@));
    if earlier.is_mirrored != later.is_mirrored {
        if later.is_mirrored {
            events.push(Event::Mirrored(later.clone()));
        } else {
            events.push(Event::UnMirrored(later.clone()));
        }
    }
    assert(events@ =~= start + changes(earlier@, later@));
}

/// Compares two snapshots and returns the events that lead from `earlier`
/// to `later`.
///
/// A display in `earlier` only gives `Removed`, one in `later` only gives
/// `Added`, one in both gives an event for each of size, origin and mirroring
/// that differs, in that order. The displays are taken in the canonical order
/// of their identities.
pub fn diff(earlier: &Snapshot, later: &Snapshot) -> (events: EventBuffer)
    ensures
        events@ == diff_events(earlier.entries(), later.entries()),
{
    let mut events = EventBuffer::new();
    let mut i: usize = 0;
    let mut j: usize = 0;
    let ghost olds = earlier.entries();
    let ghost news = later.entries();
    while i < earlier.len() || j < later.len()
        invariant
            0 <= i <= olds.len(),
            0 <= j <= news.len(),
            olds == earlier.entries(),
            news == later.entries(),
            events@ + diff_from(olds, news, i as int, j as int) == diff_events(olds, news),
        decreases olds.len() - i + news.len() - j,
    {
        let ghost done = events@;
        let ghost rest = diff_from(olds, news, i as int, j as int);
        if i >= earlier.len() {
            events.push(Event::Added(later.entry(j).clone()));
            j += 1;
        } else if j >= later.len() {
            events.push(Event::Removed(earlier.entry(i).id.clone()));
            i += 1;
        } else {
            match earlier.entry(i).id.position(&later.entry(j).id) {
                Position::Before => {
                    events.push(Event::Removed(earlier.entry(i).id.clone()));
                    i += 1;
                },
                Position::After => {
                    events.push(Event::Added(later.entry(j).clone()));
                    j += 1;
                },
                Position::Same => {
                    push_changes(&mut events, earlier.entry(i), later.entry(j));
                    i += 1;
                    j += 1;
                },
            }
        }
        assert(events@ + diff_from(olds, news, i as int, j as int) =~= done + rest);
    }
    assert(events@ + Seq::<EventView>::empty() =~= events@);
    events
}

} // verus!
