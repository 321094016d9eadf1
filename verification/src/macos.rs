//! What is particular to macOS: how Core Graphics describes a display and a
//! reconfiguration, and the observer that takes its notifications.

use vstd::prelude::*;
use crate::buffer::EventBuffer;
use crate::dispatch::{DispatchCore, Notified, RawHint, RawHintView, RunLoop};
use crate::display::{Display, DisplayView};
use crate::error::PlatformError;
use crate::event::EventView;
use crate::geometry::{Origin, Size};
use crate::id::{DisplayId, DisplayIdView, MacOSDisplayId};
use crate::snapshot::{display_views, map_of, Snapshot};

verus! {

/// `kCGDisplayBeginConfigurationFlag`: a reconfiguration is about to begin.
pub const BEGIN_CONFIGURATION_FLAG: u32 = 0x0001;

/// `kCGDisplayMovedFlag`: the display has another origin.
pub const MOVED_FLAG: u32 = 0x0002;

/// `kCGDisplaySetModeFlag`: the display has another mode.
pub const SET_MODE_FLAG: u32 = 0x0008;

/// `kCGDisplayAddFlag`: the display was added.
pub const ADD_FLAG: u32 = 0x0010;

/// `kCGDisplayRemoveFlag`: the display was removed.
pub const REMOVE_FLAG: u32 = 0x0020;

/// `kCGDisplayMirrorFlag`: the display now mirrors another.
pub const MIRROR_FLAG: u32 = 0x0400;

/// `kCGDisplayUnMirrorFlag`: the display no longer mirrors another.
pub const UN_MIRROR_FLAG: u32 = 0x0800;

/// `kCGNullDirectDisplay`: the identity that no display has.
pub const NULL_DIRECT_DISPLAY: MacOSDisplayId = 0;

/// The most displays that one enumeration asks for.
pub const MAX_DISPLAYS: u32 = 20;

/// Whether every bit of `flag` is set in `flags`.
pub open spec fn has_flag(flags: u32, flag: u32) -> bool {
    flags & flag == flag
}

/// Whether every bit of `flag` is set in `flags`.
pub fn contains_flag(flags: u32, flag: u32) -> (r: bool)
    ensures
        r == has_flag(flags, flag),
{
    flags & flag == flag
}

/// The hint that the summary flags of a reconfiguration stand for, if any.
///
/// The notice that a reconfiguration begins is passed over: only what has
/// settled counts. After that the first of these decides: added, removed,
/// mirrored or unmirrored, mode set or moved. Other flags give no hint.
pub open spec fn classified(id: MacOSDisplayId, flags: u32) -> Option<RawHintView> {
    if has_flag(flags, BEGIN_CONFIGURATION_FLAG) {
        None
    } else if has_flag(flags, ADD_FLAG) {
        Some(RawHintView::AddedId(DisplayIdView::MacOS(id)))
    } else if has_flag(flags, REMOVE_FLAG) {
        Some(RawHintView::RemovedId(DisplayIdView::MacOS(id)))
    } else if has_flag(flags, MIRROR_FLAG) || has_flag(flags, UN_MIRROR_FLAG) {
        Some(RawHintView::MirrorToggled(DisplayIdView::MacOS(id)))
    } else if has_flag(flags, SET_MODE_FLAG) || has_flag(flags, MOVED_FLAG) {
        Some(RawHintView::GeometryOrModeChanged)
    } else {
        None
    }
}

/// Classifies the summary flags that Core Graphics passes to a
/// reconfiguration callback for the display `id`.
pub fn classify(id: MacOSDisplayId, flags: u32) -> (r: Option<RawHint>)
    ensures
        match r {
            Some(hint) => classified(id, flags) == Some(hint@),
            None => classified(id, flags) is None,
        },
{
    if contains_flag(flags, BEGIN_CONFIGURATION_FLAG) {
        None
    } else if contains_flag(flags, ADD_FLAG) {
        Some(RawHint::AddedId(DisplayId::from_macos(id)))
    } else if contains_flag(flags, REMOVE_FLAG) {
        Some(RawHint::RemovedId(DisplayId::from_macos(id)))
    } else if contains_flag(flags, MIRROR_FLAG) || contains_flag(flags, UN_MIRROR_FLAG) {
        Some(RawHint::MirrorToggled(DisplayId::from_macos(id)))
    } else if contains_flag(flags, SET_MODE_FLAG) || contains_flag(flags, MOVED_FLAG) {
        Some(RawHint::GeometryOrModeChanged)
    } else {
        None
    }
}

/// The identities that an enumeration returned: the first `count` of the
/// buffer it filled, or the whole buffer where `count` is larger.
pub fn active_ids(buffer: &Vec<MacOSDisplayId>, count: u32) -> (r: Vec<MacOSDisplayId>)
    ensures
        r@ == buffer@.take(if count <= buffer@.len() { count as int } else { buffer@.len() as int }),
{
    let mut ids: Vec<MacOSDisplayId> = Vec::new();
    let mut i: usize = 0;
    while i < buffer.len() && i < count as usize
        invariant
            0 <= i <= buffer.len(),
            i <= count,
            ids@ == buffer@.take(i as int),
        decreases buffer.len() - i,
    {
        ids.push(buffer[i]);
        assert(buffer@.take(i + 1) =~= buffer@.take(i as int).push(buffer@[i as int]));
        i += 1;
    }
    ids
}

/// A macOS-specific display: what Core Graphics says of it at one instant.
#[derive(Debug, Clone, Copy, PartialEq, Eq, Structural)]
pub struct MacOSDisplay {
    /// The `CGDirectDisplayID` of the display.
    pub id: MacOSDisplayId,
    /// The origin of the display's bounds.
    pub origin: Origin,
    /// The size of the display's bounds.
    pub size: Size,
    /// Whether the display is the main display.
    pub is_main: bool,
    /// The display that this one mirrors, or [`NULL_DIRECT_DISPLAY`].
    pub mirrors: MacOSDisplayId,
}

impl MacOSDisplay {
    /// Creates a `MacOSDisplay` from its `CGDirectDisplayID`, the origin and
    /// size of its bounds, whether it is the main display, and the display
    /// that it mirrors ([`NULL_DIRECT_DISPLAY`] where it mirrors none).
    pub fn new(
        id: MacOSDisplayId,
        origin: Origin,
        size: Size,
        is_main: bool,
        mirrors: MacOSDisplayId,
    ) -> (r: Self)
        ensures
            r == (MacOSDisplay { id, origin, size, is_main, mirrors }),
    {
        MacOSDisplay { id, origin, size, is_main, mirrors }
    }

    /// Get the `CGDirectDisplayID` of the display.
    pub fn id(&self) -> (r: MacOSDisplayId)
        ensures
            r == self.id,
    {
        self.id
    }

    /// Get the origin (top-left corner) of the display in screen coordinates.
    pub fn origin(&self) -> (r: Origin)
        ensures
            r == self.origin,
    {
        self.origin
    }

    /// Get the current resolution (width and height) of the display.
    pub fn size(&self) -> (r: Size)
        ensures
            r == self.size,
    {
        self.size
    }

    /// Check if this display is the primary (main) display.
    pub fn is_primary(&self) -> (r: bool)
        ensures
            r == self.is_main,
    {
        self.is_main
    }

    /// Check if this display is currently mirrored: whether it shows what
    /// another display shows.
    pub fn is_mirrored(&self) -> (r: bool)
        ensures
            r == (self.mirrors != NULL_DIRECT_DISPLAY),
    {
        self.mirrors != NULL_DIRECT_DISPLAY
    }

    /// Get the `CGDirectDisplayID` of the display that this one mirrors.
    ///
    /// Returns `None` if the display mirrors none.
    pub fn get_primary_id(&self) -> (r: Option<MacOSDisplayId>)
        ensures
            r == if self.mirrors == NULL_DIRECT_DISPLAY {
                None
            } else {
                Some(self.mirrors)
            },
    {
        if self.mirrors == NULL_DIRECT_DISPLAY {
            None
        } else {
            Some(self.mirrors)
        }
    }

    /// The display as the library reports it on every platform.
    pub open spec fn display(&self) -> DisplayView {
        DisplayView {
            id: DisplayIdView::MacOS(self.id),
            origin: self.origin,
            size: self.size,
            scale_factor: None,
            is_primary: self.is_main,
            is_mirrored: self.mirrors != NULL_DIRECT_DISPLAY,
        }
    }

    /// The display as the library reports it on every platform. Core
    /// Graphics gives its bounds in points, so no scale factor is reported.
    pub fn to_display(&self) -> (r: Display)
        ensures
            r@ == self.display(),
    {
        Display {
            id: DisplayId::from_macos(self.id),
            origin: self.origin,
            size: self.size,
            scale_factor: None,
            is_primary: self.is_main,
            is_mirrored: self.is_mirrored(),
        }
    }
}

/// A macOS-specific display observer.
///
/// It takes what a reconfiguration callback of Core Graphics receives and
/// keeps the displays it knows, so that it can tell what changed.
pub struct MacOSDisplayObserver<C> {
    user_info: DispatchCore<C>,
}

impl<C> MacOSDisplayObserver<C> {
    /// The core of the observer.
    pub closed spec fn dispatch(&self) -> DispatchCore<C> {
        self.user_info
    }

    /// The validity of an observer: that of its core.
    pub open spec fn wf(&self) -> bool {
        self.dispatch().wf()
    }

    /// Creates a new `MacOSDisplayObserver` from the outcome of the first
    /// capture of the displays. It fails with the error of that capture.
    pub fn new(first_capture: Result<Vec<Display>, PlatformError>) -> (r: Result<
        Self,
        PlatformError,
    >)
        ensures
            match (first_capture, r) {
                (Ok(records), Ok(observer)) => {
                    &&& observer.wf()
                    &&& observer.dispatch().callback() is None
                    &&& observer.dispatch().snapshot()@ == map_of(display_views(records@))
                },
                (Err(e), Err(f)) => e == f,
                _ => false,
            },
    {
        match first_capture {
            Ok(records) => Ok(
                MacOSDisplayObserver { user_info: DispatchCore::new(Snapshot::from_records(records)) },
            ),
            Err(e) => Err(e),
        }
    }

    /// Sets the callback to be invoked when a display event occurs.
    pub fn set_callback(&mut self, callback: C)
        ensures
            final(self).dispatch().callback() == Some(callback),
            final(self).dispatch().snapshot() == old(self).dispatch().snapshot(),
    {
        self.user_info.set_callback(callback);
    }

    /// Removes the currently set callback. After calling this, no display
    /// events will be dispatched.
    pub fn remove_callback(&mut self)
        ensures
            final(self).dispatch().callback() is None,
            final(self).dispatch().snapshot() == old(self).dispatch().snapshot(),
    {
        self.user_info.remove_callback();
    }

    /// The registered callback, to be called with the events of a batch.
    pub fn callback_mut(&mut self) -> (r: Option<&mut C>)
        ensures
            final(self).dispatch().snapshot() == old(self).dispatch().snapshot(),
            match r {
                Some(c) => old(self).dispatch().callback() == Some(*c) && final(self).dispatch().callback()
                    == Some(*final(c)),
                None => old(self).dispatch().callback() is None && final(self).dispatch().callback()
                    is None,
            },
    {
        self.user_info.callback_mut()
    }

    /// Takes a raw hint of the platform, as [`DispatchCore::notify`] does.
    pub fn notify(&mut self, hint: &RawHint) -> (r: Notified)
        requires
            old(self).wf(),
        ensures
            final(self).wf(),
            final(self).dispatch().callback() == old(self).dispatch().callback(),
            match hint@ {
                RawHintView::RemovedId(id) => {
                    &&& final(self).dispatch().snapshot()@ == old(self).dispatch().snapshot()@.remove(id)
                    &&& r matches Notified::Dispatch(events)
                    &&& events@ == old(self).dispatch().batch(final(self).dispatch().snapshot())
                },
                _ => r is Capture && final(self).dispatch().snapshot() == old(
                    self
                ).dispatch().snapshot(),
            },
    {
        self.user_info.notify(hint)
    }

    /// Takes what Core Graphics passes to the reconfiguration callback.
    ///
    /// Flags that give no hint leave the observer as it is and deliver
    /// nothing. A hint goes to [`DispatchCore::notify`].
    pub fn display_callback(&mut self, id: MacOSDisplayId, flags: u32) -> (r: Notified)
        requires
            old(self).wf(),
        ensures
            final(self).wf(),
            final(self).dispatch().callback() == old(self).dispatch().callback(),
            match classified(id, flags) {
                None => {
                    &&& final(self).dispatch().snapshot() == old(self).dispatch().snapshot()
                    &&& r matches Notified::Dispatch(events)
                    &&& events@ == Seq::<EventView>::empty()
                },
                Some(RawHintView::RemovedId(removed)) => {
                    &&& final(self).dispatch().snapshot()@ == old(self).dispatch().snapshot()@.remove(
                        removed,
                    )
                    &&& r matches Notified::Dispatch(events)
                    &&& events@ == old(self).dispatch().batch(final(self).dispatch().snapshot())
                },
                Some(_) => r is Capture && final(self).dispatch().snapshot() == old(self).dispatch().snapshot(),
            },
    {
        match classify(id, flags) {
            None => Notified::Dispatch(EventBuffer::new()),
            Some(hint) => self.user_info.notify(&hint),
        }
    }

    /// Takes the outcome of the capture that
    /// [`MacOSDisplayObserver::display_callback`] asked for.
    pub fn capture_completed(&mut self, captured: Result<Vec<Display>, PlatformError>) -> (events:
        EventBuffer)
        requires
            old(self).wf(),
        ensures
            final(self).wf(),
            final(self).dispatch().callback() == old(self).dispatch().callback(),
            match captured {
                Ok(records) => {
                    &&& final(self).dispatch().snapshot()@ == map_of(display_views(records@))
                    &&& events@ == old(self).dispatch().batch(final(self).dispatch().snapshot())
                },
                Err(_) => {
                    &&& final(self).dispatch().snapshot() == old(self).dispatch().snapshot()
                    &&& events@ == Seq::<EventView>::empty()
                },
            },
    {
        self.user_info.capture_completed(captured)
    }

    /// Says that the event loop of the application may start.
    ///
    /// The loop of `NSApplication` runs on the main thread only: a caller on
    /// another thread must not come here.
    pub fn run(&self, on_main_thread: bool) -> (r: RunLoop)
        requires
            on_main_thread,
        ensures
            r == RunLoop::Application,
    {
        RunLoop::Application
    }
}

} // verus!
