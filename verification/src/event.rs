//! The changes that the library reports.

use vstd::prelude::*;
use crate::display::{Display, DisplayView};
use crate::geometry::{Origin, Size};
use crate::id::{DisplayId, DisplayIdView, Position};

verus! {

/// An event that occurs when the display configuration changes.
///
/// Every event is about exactly one display. All but `Removed` carry the
/// display in its state after the change.
#[derive(Debug)]
#[allow(inconsistent_fields)]
pub enum Event {
    /// A display was added.
    Added(Display),
    /// A display was removed.
    Removed(DisplayId),
    /// The size of a display changed.
    SizeChanged { display: Display, before: Size, after: Size },
    /// The origin of a display changed.
    OriginChanged { display: Display, before: Origin, after: Origin },
    /// A display was mirrored.
    Mirrored(Display),
    /// A display was unmirrored.
    UnMirrored(Display),
}

/// What an [`Event`] is, as a mathematical value.
#[allow(inconsistent_fields)]
pub enum EventView {
    Added(DisplayView),
    Removed(DisplayIdView),
    SizeChanged { display: DisplayView, before: Size, after: Size },
    OriginChanged { display: DisplayView, before: Origin, after: Origin },
    Mirrored(DisplayView),
    UnMirrored(DisplayView),
}

impl EventView {
    /// The identity of the display that the event is about.
    pub open spec fn id(self) -> DisplayIdView {
        match self {
            EventView::Added(d) => d.id,
            EventView::Removed(id) => id,
            EventView::SizeChanged { display, .. } => display.id,
            EventView::OriginChanged { display, .. } => display.id,
            EventView::Mirrored(d) => d.id,
            EventView::UnMirrored(d) => d.id,
        }
    }

    /// The display that can still be queried after the event, if there is
    /// one: every event but a removal has it.
    pub open spec fn display(self) -> Option<DisplayView> {
        match self {
            EventView::Added(d) => Some(d),
            EventView::Removed(_) => None,
            EventView::SizeChanged { display, .. } => Some(display),
            EventView::OriginChanged { display, .. } => Some(display),
            EventView::Mirrored(d) => Some(d),
            EventView::UnMirrored(d) => Some(d),
        }
    }
}

impl Event {
    pub open spec fn view(&self) -> EventView {
        match self {
            Event::Added(d) => EventView::Added(d@),
            Event::Removed(id) => EventView::Removed(id@),
            Event::SizeChanged { display, before, after } => EventView::SizeChanged {
                display: display@,
                before: *before,
                after: *after,
            },
            Event::OriginChanged { display, before, after } => EventView::OriginChanged {
                display: display@,
                before: *before,
                after: *after,
            },
            Event::Mirrored(d) => EventView::Mirrored(d@),
            Event::UnMirrored(d) => EventView::UnMirrored(d@),
        }
    }

    /// The identity of the display that the event is about.
    pub fn id(&self) -> (r: &DisplayId)
        ensures
            r@ == self@.id(),
    {
        match self {
            Event::Added(d) => &d.id,
            Event::Removed(id) => id,
            Event::SizeChanged { display, .. } => &display.id,
            Event::OriginChanged { display, .. } => &display.id,
            Event::Mirrored(d) => &d.id,
            Event::UnMirrored(d) => &d.id,
        }
    }

    /// The display in its state after the event; `None` for a removal.
    pub fn display(&self) -> (r: Option<&Display>)
        ensures
            match r {
                Some(d) => self@.display() == Some(d@),
                None => self@.display() is None,
            },
    {
        match self {
            Event::Added(d) => Some(d),
            Event::Removed(_) => None,
            Event::SizeChanged { display, .. } => Some(display),
            Event::OriginChanged { display, .. } => Some(display),
            Event::Mirrored(d) => Some(d),
            Event::UnMirrored(d) => Some(d),
        }
    }

    /// Whether both report the same change of the same display.
    pub fn same(&self, other: &Event) -> (r: bool)
        ensures
            r == (self@ == other@),
    {
        match (self, other) {
            (Event::Added(a), Event::Added(b)) => a.same(b),
            (Event::Removed(a), Event::Removed(b)) => a.position(b) == Position::Same,
            (
                Event::SizeChanged { display: a, before: ab, after: aa },
                Event::SizeChanged { display: b, before: bb, after: ba },
            ) => a.same(b) && *ab == *bb && *aa == *ba,
            (
                Event::OriginChanged { display: a, before: ab, after: aa },
                Event::OriginChanged { display: b, before: bb, after: ba },
            ) => a.same(b) && *ab == *bb && *aa == *ba,
            (Event::Mirrored(a), Event::Mirrored(b)) => a.same(b),
            (Event::UnMirrored(a), Event::UnMirrored(b)) => a.same(b),
            _ => false,
        }
    }
}

impl Clone for Event {
    fn clone(&self) -> (r: Self)
        ensures
            r@ == self@,
    {
        match self {
            Event::Added(d) => Event::Added(d.clone()),
            Event::Removed(id) => Event::Removed(id.clone()),
            Event::SizeChanged { display, before, after } => Event::SizeChanged {
                display: display.clone(),
                before: *before,
                after: *after,
            },
            Event::OriginChanged { display, before, after } => Event::OriginChanged {
                display: display.clone(),
                before: *before,
                after: *after,
            },
            Event::Mirrored(d) => Event::Mirrored(d.clone()),
            Event::UnMirrored(d) => Event::UnMirrored(d.clone()),
        }
    }
}

impl PartialEq for Event {
    fn eq(&self, other: &Self) -> (r: bool) {
        self.same(other)
    }
}

impl vstd::std_specs::cmp::PartialEqSpecImpl for Event {
    open spec fn obeys_eq_spec() -> bool {
        true
    }

    open spec fn eq_spec(&self, other: &Self) -> bool {
        self@ == other@
    }
}

/// An event together with the display it is about, where that display can
/// still be queried.
#[derive(Debug)]
pub enum MayBeDisplayAvailable {
    /// The display exists after the event.
    Available { display: Display, event: Event },
    /// The display is gone: nothing can be asked of it any more.
    NotAvailable { event: Event },
}

/// What a [`MayBeDisplayAvailable`] is, as a mathematical value.
pub enum MayBeDisplayAvailableView {
    Available { display: DisplayView, event: EventView },
    NotAvailable { event: EventView },
}

/// The wrapping of an event: available with the display it carries, not
/// available where it carries none.
pub open spec fn wrapped(event: EventView) -> MayBeDisplayAvailableView {
    match event.display() {
        Some(display) => MayBeDisplayAvailableView::Available { display, event },
        None => MayBeDisplayAvailableView::NotAvailable { event },
    }
}

impl MayBeDisplayAvailable {
    pub open spec fn view(&self) -> MayBeDisplayAvailableView {
        match self {
            MayBeDisplayAvailable::Available { display, event } => {
                MayBeDisplayAvailableView::Available { display: display@, event: event@ }
            },
            MayBeDisplayAvailable::NotAvailable { event } => {
                MayBeDisplayAvailableView::NotAvailable { event: event@ }
            },
        }
    }

    /// Wraps an event by whether its display can still be queried.
    pub fn from_event(event: Event) -> (r: Self)
        ensures
            r@ == wrapped(event@),
    {
        let display = match event.display() {
            Some(d) => Some(d.clone()),
            None => None,
        };
        match display {
            Some(display) => MayBeDisplayAvailable::Available { display, event },
            None => MayBeDisplayAvailable::NotAvailable { event },
        }
    }

    /// The event inside the wrapping.
    pub fn event(&self) -> (r: &Event)
        ensures
            r@ == match self@ {
                MayBeDisplayAvailableView::Available { event, .. } => event,
                MayBeDisplayAvailableView::NotAvailable { event } => event,
            },
    {
        match self {
            MayBeDisplayAvailable::Available { event, .. } => event,
            MayBeDisplayAvailable::NotAvailable { event } => event,
        }
    }
}

} // verus!
