//! What is particular to Windows: how the system describes a monitor and a
//! change, and the observer that takes its window messages.

use vstd::prelude::*;
use crate::buffer::EventBuffer;
use crate::dispatch::{DispatchCore, Notified, RawHint, RawHintView, RunLoop};
use crate::display::{Display, DisplayView};
use crate::error::PlatformError;
use crate::event::EventView;
use crate::geometry::{Origin, ScaleFactor, Size, USER_DEFAULT_SCREEN_DPI};
use crate::id::{DisplayId, WindowsDisplayId};
use crate::snapshot::{display_views, map_of, Snapshot};

verus! {

/// `WM_DISPLAYCHANGE`: the message sent when the display resolution changed.
pub const WM_DISPLAYCHANGE: u32 = 0x007E;

/// `MONITORINFOF_PRIMARY`: the flag of the primary monitor.
pub const MONITORINFOF_PRIMARY: u32 = 0x0001;

/// Whether `name` is the device name that a buffer of wide characters
/// holds: what stands before the first NUL, or all of it where it has none.
pub open spec fn is_device_name(name: Seq<u16>, buffer: Seq<u16>) -> bool {
    &&& name.len() <= buffer.len()
    &&& name == buffer.take(name.len() as int)
    &&& forall|i: int| 0 <= i < name.len() ==> name[i] != 0
    &&& name.len() < buffer.len() ==> buffer[name.len() as int] == 0
}

/// The identity of the monitor whose device name a buffer holds, such as the
/// `szDevice` of a `MONITORINFOEXW`.
pub fn device_id(buffer: &Vec<u16>) -> (r: WindowsDisplayId)
    ensures
        is_device_name(r@, buffer@),
{
    let mut name: Vec<u16> = Vec::new();
    let mut i: usize = 0;
    while i < buffer.len() && buffer[i] != 0
        invariant
            0 <= i <= buffer.len(),
            name@ == buffer@.take(i as int),
            forall|j: int| 0 <= j < i ==> buffer@[j] != 0,
        decreases buffer.len() - i,
    {
        name.push(buffer[i]);
        assert(buffer@.take(i + 1) =~= buffer@.take(i as int).push(buffer@[i as int]));
        i += 1;
    }
    WindowsDisplayId::new(name)
}

/// The rectangle of a monitor in virtual-screen coordinates.
#[derive(Debug, Clone, Copy, PartialEq, Eq, Structural)]
pub struct MonitorRect {
    pub left: i32,
    pub top: i32,
    pub right: i32,
    pub bottom: i32,
}

/// The distance from `low` to `high`. Where `high` lies below `low` it is
/// counted round, as arithmetic on 32 bits does.
pub open spec fn extent(low: i32, high: i32) -> int {
    if high >= low {
        high - low
    } else {
        high - low + 0x1_0000_0000
    }
}

fn span(low: i32, high: i32) -> (r: u32)
    ensures
        r == extent(low, high),
{
    let distance: i64 = high as i64 - low as i64;
    if distance >= 0 {
        distance as u32
    } else {
        (distance + 0x1_0000_0000) as u32
    }
}

impl MonitorRect {
    /// The origin of the monitor: its left top corner.
    pub fn origin(&self) -> (r: Origin)
        ensures
            r == (Origin { x: self.left, y: self.top }),
    {
        Origin { x: self.left, y: self.top }
    }

    /// The size of the monitor: from left to right and from top to bottom.
    pub fn size(&self) -> (r: Size)
        ensures
            r.width == extent(self.left, self.right),
            r.height == extent(self.top, self.bottom),
    {
        Size { width: span(self.left, self.right), height: span(self.top, self.bottom) }
    }
}

/// How many of the devices are `device`.
pub open spec fn occurrences(sources: Seq<WindowsDisplayId>, device: Seq<u16>) -> nat
    decreases sources.len(),
{
    if sources.len() == 0 {
        0
    } else {
        occurrences(sources.drop_last(), device) + if sources.last()@ == device {
            1nat
        } else {
            0nat
        }
    }
}

/// Whether a display is mirrored: whether more than one of the active paths
/// has the display's device as its source. `sources` holds the source device
/// of each active path.
pub fn is_display_mirrored(device: &WindowsDisplayId, sources: &Vec<WindowsDisplayId>) -> (r: bool)
    ensures
        r == (occurrences(sources@, device@) > 1),
{
    let mut match_count: usize = 0;
    let mut i: usize = 0;
    while i < sources.len()
        invariant
            0 <= i <= sources.len(),
            match_count <= i,
            match_count == occurrences(sources@.take(i as int), device@),
        decreases sources.len() - i,
    {
        assert(sources@.take(i + 1).drop_last() =~= sources@.take(i as int));
        if sources[i].same(device) {
            match_count += 1;
        }
        i += 1;
    }
    assert(sources@.take(i as int) =~= sources@);
    match_count > 1
}

/// The scale of a monitor: its own effective dots per inch where the system
/// gives them; else those of the device context where the process is aware
/// of scaling; else the default.
pub fn get_scale_factor(monitor_dpi: Option<u32>, process_dpi_aware: bool, device_dpi: u32) -> (r:
    ScaleFactor)
    ensures
        r.dpi == match monitor_dpi {
            Some(dpi) => dpi,
            None => if process_dpi_aware {
                device_dpi
            } else {
                USER_DEFAULT_SCREEN_DPI
            },
        },
{
    match monitor_dpi {
        Some(dpi) => ScaleFactor::from_dpi(dpi),
        None => if process_dpi_aware {
            ScaleFactor::from_dpi(device_dpi)
        } else {
            ScaleFactor::from_dpi(USER_DEFAULT_SCREEN_DPI)
        },
    }
}

/// Whether the flags of a monitor mark it as the primary one.
pub open spec fn marks_primary(flags: u32) -> bool {
    flags & MONITORINFOF_PRIMARY != 0
}

/// The display that the system's description of a monitor stands for:
/// the device name in `device`, the monitor's rectangle and flags, whether it
/// is mirrored, and its scale.
pub fn monitor_display(
    device: &Vec<u16>,
    rect: MonitorRect,
    flags: u32,
    is_mirrored: bool,
    scale_factor: ScaleFactor,
) -> (r: Display)
    ensures
        r@.id is Windows,
        is_device_name(r@.id->Windows_0, device@),
        r@.origin == (Origin { x: rect.left, y: rect.top }),
        r@.size.width == extent(rect.left, rect.right),
        r@.size.height == extent(rect.top, rect.bottom),
        r@.scale_factor == Some(scale_factor),
        r@.is_primary == marks_primary(flags),
        r@.is_mirrored == is_mirrored,
{
    Display {
        id: DisplayId::from_windows(device_id(device)),
        origin: rect.origin(),
        size: rect.size(),
        scale_factor: Some(scale_factor),
        is_primary: (flags & MONITORINFOF_PRIMARY) != 0,
        is_mirrored,
    }
}

/// What has been gathered while the system hands over its monitors one by
/// one: the displays so far, and the first or latest failure.
#[derive(Debug)]
pub struct EnumDisplayMonitorsUserData {
    displays: Vec<Display>,
    result: Result<(), PlatformError>,
}

impl EnumDisplayMonitorsUserData {
    /// The displays gathered so far.
    pub closed spec fn displays(&self) -> Seq<DisplayView> {
        display_views(self.displays@)
    }

    /// Whether every monitor so far could be described, else the error of
    /// the latest that could not.
    pub closed spec fn result(&self) -> Result<(), PlatformError> {
        self.result
    }

    /// Nothing gathered and nothing failed.
    pub fn new() -> (r: Self)
        ensures
            r.displays() == Seq::<DisplayView>::empty(),
            r.result() == Ok::<(), PlatformError>(()),
    {
        let r = EnumDisplayMonitorsUserData { displays: Vec::new(), result: Ok(()) };
        assert(r.displays() =~= Seq::<DisplayView>::empty());
        r
    }

    /// Takes a monitor that could be described. The enumeration goes on.
    pub fn monitor_described(&mut self, display: Display) -> (proceed: bool)
        ensures
            proceed,
            final(self).displays() == old(self).displays().push(display@),
            final(self).result() == old(self).result(),
    {
        self.displays.push(display);
        assert(self.displays() =~= old(self).displays().push(display@));
        true
    }

    /// Takes the failure to get a monitor's information. The monitor is
    /// passed over and the enumeration goes on, but it will end in `error`
    /// unless a later failure takes its place.
    pub fn monitor_info_failed(&mut self, error: PlatformError) -> (proceed: bool)
        ensures
            proceed,
            final(self).displays() == old(self).displays(),
            final(self).result() == Err::<(), PlatformError>(error),
    {
        self.result = Err(error);
        true
    }

    /// Takes the failure to learn whether a monitor is mirrored. The
    /// enumeration stops and ends in `error`.
    pub fn mirror_query_failed(&mut self, error: PlatformError) -> (proceed: bool)
        ensures
            !proceed,
            final(self).displays() == old(self).displays(),
            final(self).result() == Err::<(), PlatformError>(error),
    {
        self.result = Err(error);
        false
    }

    /// The outcome of the enumeration: the displays gathered where nothing
    /// failed, else the error.
    pub fn finish(self) -> (r: Result<Vec<Display>, PlatformError>)
        ensures
            match (self.result(), r) {
                (Ok(_), Ok(displays)) => display_views(displays@) == self.displays(),
                (Err(e), Err(f)) => e == f,
                _ => false,
            },
    {
        match self.result {
            Ok(_) => Ok(self.displays),
            Err(e) => Err(e),
        }
    }
}

/// The hint that a window message stands for, if any: a changed display
/// resolution says that some geometry or mode changed.
pub open spec fn classified(msg: u32) -> Option<RawHintView> {
    if msg == WM_DISPLAYCHANGE {
        Some(RawHintView::GeometryOrModeChanged)
    } else {
        None
    }
}

/// Classifies a message that the observer's window received.
pub fn classify(msg: u32) -> (r: Option<RawHint>)
    ensures
        match r {
            Some(hint) => classified(msg) == Some(hint@),
            None => classified(msg) is None,
        },
{
    if msg == WM_DISPLAYCHANGE {
        Some(RawHint::GeometryOrModeChanged)
    } else {
        None
    }
}

/// A Windows-specific display observer.
///
/// It takes the messages that a hidden window receives and keeps the
/// displays it knows, so that it can tell what changed.
pub struct WindowsDisplayObserver<C> {
    ctx: DispatchCore<C>,
}

impl<C> WindowsDisplayObserver<C> {
    /// The core of the observer.
    pub closed spec fn dispatch(&self) -> DispatchCore<C> {
        self.ctx
    }

    /// The validity of an observer: that of its core.
    pub open spec fn wf(&self) -> bool {
        self.dispatch().wf()
    }

    /// Creates a new `WindowsDisplayObserver` from the outcome of the first
    /// capture of the displays. It fails with the error of that capture.
    pub fn new(first_capture: Result<Vec<Display>, PlatformError>) -> (r: Result<
        Self,
        PlatformError,
    >)
        ensures
            match (first_capture, r) {
                (Ok(records), Ok(observer)) => {
                    &&& observer.wf()
                    &&& observer.dispatch().callback() is None
                    &&& observer.dispatch().snapshot()@ == map_of(display_views(records@))
                },
                (Err(e), Err(f)) => e == f,
                _ => false,
            },
    {
        match first_capture {
            Ok(records) => Ok(
                WindowsDisplayObserver { ctx: DispatchCore::new(Snapshot::from_records(records)) },
            ),
            Err(e) => Err(e),
        }
    }

    /// Sets the callback to be invoked when a display event occurs.
    pub fn set_callback(&mut self, callback: C)
        ensures
            final(self).dispatch().callback() == Some(callback),
            final(self).dispatch().snapshot() == old(self).dispatch().snapshot(),
    {
        self.ctx.set_callback(callback);
    }

    /// Removes the currently set callback. After calling this, no display
    /// events will be dispatched.
    pub fn remove_callback(&mut self)
        ensures
            final(self).dispatch().callback() is None,
            final(self).dispatch().snapshot() == old(self).dispatch().snapshot(),
    {
        self.ctx.remove_callback();
    }

    /// The registered callback, to be called with the events of a batch.
    pub fn callback_mut(&mut self) -> (r: Option<&mut C>)
        ensures
            final(self).dispatch().snapshot() == old(self).dispatch().snapshot(),
            match r {
                Some(c) => old(self).dispatch().callback() == Some(*c) && final(self).dispatch().callback() == Some(*final(c)),
                None => old(self).dispatch().callback() is None && final(self).dispatch().callback() is None,
            },
    {
        self.ctx.callback_mut()
    }

    /// Takes a raw hint of the platform, as [`DispatchCore::notify`] does.
    pub fn notify(&mut self, hint: &RawHint) -> (r: Notified)
        requires
            old(self).wf(),
        ensures
            final(self).wf(),
            final(self).dispatch().callback() == old(self).dispatch().callback(),
            match hint@ {
                RawHintView::RemovedId(id) => {
                    &&& final(self).dispatch().snapshot()@ == old(self).dispatch().snapshot()@.remove(id)
                    &&& r matches Notified::Dispatch(events)
                    &&& events@ == old(self).dispatch().batch(final(self).dispatch().snapshot())
                },
                _ => r is Capture && final(self).dispatch().snapshot() == old(
                    self
                ).dispatch().snapshot(),
            },
    {
        self.ctx.notify(hint)
    }

    /// Takes a message that the observer's window received.
    ///
    /// A message that gives no hint leaves the observer as it is and
    /// delivers nothing. A changed display resolution asks for a capture.
    pub fn process_window_message(&mut self, msg: u32) -> (r: Notified)
        requires
            old(self).wf(),
        ensures
            final(self).wf(),
            final(self).dispatch().callback() == old(self).dispatch().callback(),
            final(self).dispatch().snapshot() == old(self).dispatch().snapshot(),
            match classified(msg) {
                None => r matches Notified::Dispatch(events) && events@ == Seq::<
                    EventView,
                >::empty(),
                Some(_) => r is Capture,
            },
    {
        match classify(msg) {
            None => Notified::Dispatch(EventBuffer::new()),
            Some(hint) => self.ctx.notify(&hint),
        }
    }

    /// Takes the outcome of the capture that
    /// [`WindowsDisplayObserver::process_window_message`] asked for.
    pub fn capture_completed(&mut self, captured: Result<Vec<Display>, PlatformError>) -> (events:
        EventBuffer)
        requires
            old(self).wf(),
        ensures
            final(self).wf(),
            final(self).dispatch().callback() == old(self).dispatch().callback(),
            match captured {
                Ok(records) => {
                    &&& final(self).dispatch().snapshot()@ == map_of(display_views(records@))
                    &&& events@ == old(self).dispatch().batch(final(self).dispatch().snapshot())
                },
                Err(_) => {
                    &&& final(self).dispatch().snapshot() == old(self).dispatch().snapshot()
                    &&& events@ == Seq::<EventView>::empty()
                },
            },
    {
        self.ctx.capture_completed(captured)
    }

    /// Says which loop delivers the notifications: the message loop of the
    /// calling thread.
    pub fn run(&self) -> (r: RunLoop)
        ensures
            r == RunLoop::Messages,
    {
        RunLoop::Messages
    }
}

} // verus!
