//! The core that keeps the last snapshot and the registered callback.
//!
//! The core decides; it does not query the platform and does not call the
//! callback. A notification comes in as a raw hint. The core answers with
//! what is to be done: deliver a batch of events to the callback, or capture
//! the displays and report back. The caller holds one lock around the core
//! from the hint until the batch is delivered, so notifications are dealt with
//! one after another. The callback must not call back into the core.

use vstd::prelude::*;
use crate::buffer::EventBuffer;
use crate::diff::diff;
use crate::display::Display;
use crate::error::PlatformError;
use crate::event::{wrapped, EventView};
use crate::id::{DisplayId, DisplayIdView};
use crate::laws::{
    diff_spec, lemma_diff_depends_on_mapping, lemma_diff_one_added, lemma_diff_self_is_empty,
    lemma_removed_is_never_available,
};
use crate::snapshot::{display_views, lemma_map_of_keys, map_of, Snapshot};

verus! {

/// A minimal signal of the platform that something changed.
#[derive(Debug)]
pub enum RawHint {
    /// The display with this identity was added.
    AddedId(DisplayId),
    /// The display with this identity was removed.
    RemovedId(DisplayId),
    /// The geometry or the mode of some display changed.
    GeometryOrModeChanged,
    /// The display with this identity began or ceased to mirror another.
    MirrorToggled(DisplayId),
}

/// What a [`RawHint`] is, as a mathematical value.
pub enum RawHintView {
    AddedId(DisplayIdView),
    RemovedId(DisplayIdView),
    GeometryOrModeChanged,
    MirrorToggled(DisplayIdView),
}

impl RawHint {
    pub open spec fn view(&self) -> RawHintView {
        match self {
            RawHint::AddedId(id) => RawHintView::AddedId(id@),
            RawHint::RemovedId(id) => RawHintView::RemovedId(id@),
            RawHint::GeometryOrModeChanged => RawHintView::GeometryOrModeChanged,
            RawHint::MirrorToggled(id) => RawHintView::MirrorToggled(id@),
        }
    }
}

/// What the caller is to do after a notification.
#[derive(Debug)]
pub enum Notified {
    /// Deliver the events to the registered callback, one call for each, in
    /// this order.
    Dispatch(EventBuffer),
    /// Capture the displays and hand the outcome to
    /// [`DispatchCore::capture_completed`].
    Capture,
}

/// The loop of the platform that delivers the notifications.
#[derive(Debug, Clone, Copy, PartialEq, Eq, Structural)]
pub enum RunLoop {
    /// The event loop of the shared `NSApplication`.
    Application,
    /// The message loop of the calling thread.
    Messages,
}

/// The retained snapshot and the slot for the callback.
pub struct DispatchCore<C> {
    snapshot: Snapshot,
    callback: Option<C>,
}

impl<C> DispatchCore<C> {
    /// The retained snapshot.
    pub closed spec fn snapshot(&self) -> Snapshot {
        self.snapshot
    }

    /// The registered callback, if there is one.
    pub closed spec fn callback(&self) -> Option<C> {
        self.callback
    }

    /// The validity of a core: that of its retained snapshot.
    pub open spec fn wf(&self) -> bool {
        self.snapshot().wf()
    }

    /// The batch that is delivered when the retained snapshot gives way to
    /// `later`: the diff where a callback is registered, nothing where none
    /// is.
    pub open spec fn batch(&self, later: Snapshot) -> Seq<EventView> {
        if self.callback() is Some {
            diff_spec(self.snapshot(), later)
        } else {
            Seq::empty()
        }
    }

    /// The batch that is delivered when the platform says that the display
    /// `id` was removed: its removal, where the display was known and a
    /// callback is registered.
    pub open spec fn removal(&self, id: DisplayIdView) -> Seq<EventView> {
        if self.callback() is Some && self.snapshot()@.contains_key(id) {
            seq![EventView::Removed(id)]
        } else {
            Seq::empty()
        }
    }

    /// In one batch an event that removes a display never stands beside an
    /// event about the same display that wraps as available.
    pub proof fn lemma_batch_removed_is_never_available(self, later: Snapshot, i: int, j: int)
        requires
            self.wf(),
            later.wf(),
            0 <= i < self.batch(later).len(),
            0 <= j < self.batch(later).len(),
            self.batch(later)[i] is Removed,
            self.batch(later)[i].id() == self.batch(later)[j].id(),
        ensures
            wrapped(self.batch(later)[j]) is NotAvailable,
    {
        lemma_removed_is_never_available(self.snapshot(), later, i, j);
    }

    /// The core with `callback` registered: the same retained snapshot, and
    /// `callback` in the slot whatever was there.
    pub closed spec fn registered(self, callback: C) -> Self {
        DispatchCore { snapshot: self.snapshot, callback: Some(callback) }
    }

    /// What registering a callback does to the core.
    pub proof fn lemma_registered(self, callback: C)
        ensures
            self.registered(callback).callback() == Some(callback),
            self.registered(callback).snapshot() == self.snapshot(),
    {
    }

    /// Of two registrations in a row only the second counts: the core is as
    /// if the first had never been made, so every later batch reaches the
    /// second callback and never the first.
    pub proof fn lemma_last_callback_wins(self, first: C, second: C)
        ensures
            self.registered(first).registered(second) == self.registered(second),
            self.registered(first).registered(second).callback() == Some(second),
    {
    }

    /// A core that retains `snapshot` and has no callback.
    pub fn new(snapshot: Snapshot) -> (r: Self)
        requires
            snapshot.wf(),
        ensures
            r.wf(),
            r.snapshot() == snapshot,
            r.callback() is None,
    {
        DispatchCore { snapshot, callback: None }
    }

    /// Registers `callback` in place of any callback registered before.
    pub fn set_callback(&mut self, callback: C)
        ensures
            *final(self) == old(self).registered(callback),
            final(self).callback() == Some(callback),
            final(self).snapshot() == old(self).snapshot(),
    {
        self.callback = Some(callback);
    }

    /// Clears the callback. Notifications still bring the retained snapshot
    /// up to date; nothing is delivered.
    pub fn remove_callback(&mut self)
        ensures
            final(self).callback() is None,
            final(self).snapshot() == old(self).snapshot(),
    {
        self.callback = None;
    }

    /// Whether a callback is registered.
    pub fn has_callback(&self) -> (r: bool)
        ensures
            r == (self.callback() is Some),
    {
        self.callback.is_some()
    }

    /// The retained snapshot.
    pub fn retained(&self) -> (r: &Snapshot)
        ensures
            *r == self.snapshot(),
    {
        &self.snapshot
    }

    /// The registered callback, to be called with the events of a batch.
    pub fn callback_mut(&mut self) -> (r: Option<&mut C>)
        ensures
            final(self).snapshot() == old(self).snapshot(),
            match r {
                Some(c) => old(self).callback() == Some(*c) && final(self).callback() == Some(
                    *final(c),
                ),
                None => old(self).callback() is None && final(self).callback() is None,
            },
    {
        match &mut self.callback {
            Some(c) => Some(c),
            None => None,
        }
    }

    /// Puts `later` in the place of the retained snapshot and returns the
    /// batch to deliver.
    fn advance(&mut self, later: Snapshot) -> (events: EventBuffer)
        ensures
            final(self).snapshot() == later,
            final(self).callback() == old(self).callback(),
            events@ == old(self).batch(later),
    {
        let events = if self.callback.is_some() {
            diff(&self.snapshot, &later)
        } else {
            EventBuffer::new()
        };
        self.snapshot = later;
        events
    }

    /// Takes a raw hint of the platform.
    ///
    /// A removal needs no capture: the display leaves the retained snapshot,
    /// and the batch is the diff between the snapshot before and after. Every
    /// other hint leaves the core as it is and asks for a capture.
    pub fn notify(&mut self, hint: &RawHint) -> (r: Notified)
        requires
            old(self).wf(),
        ensures
            final(self).wf(),
            final(self).callback() == old(self).callback(),
            match hint@ {
                RawHintView::RemovedId(id) => {
                    &&& final(self).snapshot()@ == old(self).snapshot()@.remove(id)
                    &&& r matches Notified::Dispatch(events)
                    &&& events@ == old(self).batch(final(self).snapshot())
                    &&& events@ == old(self).removal(id)
                },
                _ => r is Capture && final(self).snapshot() == old(self).snapshot(),
            },
    {
        match hint {
            RawHint::RemovedId(id) => {
                let mut later = self.snapshot.clone();
                later.remove(id);
                proof {
                    let earlier = self.snapshot;
                    if earlier@.contains_key(id@) {
                        lemma_map_of_keys(earlier.entries());
                        assert(earlier@ =~= later@.insert(id@, earlier@[id@]));
                        lemma_diff_one_added(later, earlier, earlier@[id@]);
                    } else {
                        assert(earlier@ =~= later@);
                        lemma_diff_depends_on_mapping(earlier, later, earlier);
                        lemma_diff_self_is_empty(earlier);
                    }
                }
                let events = self.advance(later);
                Notified::Dispatch(events)
            },
            _ => Notified::Capture,
        }
    }

    /// Takes the outcome of the capture that [`DispatchCore::notify`] asked
    /// for.
    ///
    /// Where the capture succeeded, the captured displays become the retained
    /// snapshot, and the batch is the diff between the snapshot before and
    /// after. Where it failed, the core stays as it is and the batch is empty:
    /// a notification has no way to report an error.
    pub fn capture_completed(&mut self, captured: Result<Vec<Display>, PlatformError>) -> (events:
        EventBuffer)
        requires
            old(self).wf(),
        ensures
            final(self).wf(),
            final(self).callback() == old(self).callback(),
            match captured {
                Ok(records) => {
                    &&& final(self).snapshot()@ == map_of(display_views(records@))
                    &&& events@ == old(self).batch(final(self).snapshot())
                },
                Err(_) => {
                    &&& final(self).snapshot() == old(self).snapshot()
                    &&& events@ == Seq::<EventView>::empty()
                },
            },
    {
        match captured {
            Ok(records) => {
                let later = Snapshot::from_records(records);
                self.advance(later)
            },
            Err(_) => EventBuffer::new(),
        }
    }
}

} // verus!
