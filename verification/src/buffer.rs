//! The buffer in which a batch of events is collected.
//!
//! A batch is small, so it is kept in a `SmallVec`, which holds up to ten
//! events without allocating. What a buffer holds is named by [`buffered`];
//! the functions at the end of this file say what each operation of
//! `SmallVec` does to it, and are believed rather than proved.

use vstd::prelude::*;
use smallvec::SmallVec;
use crate::event::{Event, EventView};

verus! {

/// A batch of events in the order in which they are to be delivered.
///
/// It holds a `SmallVec<[Event; 10]>`, into which Verus does not look: its
/// contents are known through [`buffered`] alone.
#[verifier::external_body]
#[derive(Debug)]
pub struct EventBuffer {
    inner: SmallVec<[Event; 10]>,
}

/// The events that a buffer holds, first pushed first.
pub uninterp spec fn buffered(buffer: EventBuffer) -> Seq<Event>;

/// The events of a sequence as mathematical values.
pub open spec fn views_of(events: Seq<Event>) -> Seq<EventView> {
    events.map_values(|e: Event| e@)
}

impl EventBuffer {
    /// The events of the batch as mathematical values, in order.
    pub open spec fn view(&self) -> Seq<EventView> {
        views_of(buffered(*self))
    }

    /// A batch without events.
    pub fn new() -> (r: Self)
        ensures
            r@ == Seq::<EventView>::empty(),
    {
        let r = buffer_new();
        assert(r@ =~= Seq::<EventView>::empty());
        r
    }

    /// Puts `event` at the end of the batch.
    pub fn push(&mut self, event: Event)
        ensures
            final(self)@ == old(self)@.push(event@),
    {
        buffer_push(self, event);
        assert(self@ =~= old(self)@.push(event@));
    }

    /// The number of events in the batch.
    pub fn len(&self) -> (r: usize)
        ensures
            r == self@.len(),
    {
        buffer_len(self)
    }

    /// The events of the batch, in order.
    pub fn into_vec(self) -> (r: Vec<Event>)
        ensures
            views_of(r@) == self@,
    {
        buffer_into_vec(self)
    }
}

/// `SmallVec::new`: the buffer it makes holds nothing.
#[verifier::external_body]
fn buffer_new() -> (r: EventBuffer)
    ensures
        buffered(r) == Seq::<Event>::empty(),
{
    EventBuffer { inner: SmallVec::new() }
}

/// `SmallVec::push`: the buffer holds what it held, and then `event`. Like
/// `Vec::push` it fails only where memory runs out.
#[verifier::external_body]
fn buffer_push(buffer: &mut EventBuffer, event: Event)
    ensures
        buffered(*final(buffer)) == buffered(*old(buffer)).push(event),
{
    buffer.inner.push(event)
}

/// `SmallVec::len`: the number of events that the buffer holds.
#[verifier::external_body]
fn buffer_len(buffer: &EventBuffer) -> (r: usize)
    ensures
        r == buffered(*buffer).len(),
{
    buffer.inner.len()
}

/// `SmallVec::into_vec`: the vector holds what the buffer held, in the same
/// order.
#[verifier::external_body]
fn buffer_into_vec(buffer: EventBuffer) -> (r: Vec<Event>)
    ensures
        r@ == buffered(buffer),
{
    buffer.inner.into_vec()
}

} // verus!
