//! The observer that callers hold: one face for every platform.

use vstd::prelude::*;
use crate::buffer::EventBuffer;
use crate::dispatch::{DispatchCore, Notified, RawHint, RawHintView, RunLoop};
use crate::display::Display;
use crate::error::{Error, PlatformError};
use crate::event::EventView;
use crate::macos::MacOSDisplayObserver;
use crate::snapshot::{display_views, map_of};
use crate::windows::WindowsDisplayObserver;

verus! {

/// The platforms on which displays can be observed.
#[derive(Debug, Clone, Copy, PartialEq, Eq, Structural)]
pub enum Platform {
    MacOS,
    Windows,
}

/// The observer of one platform.
pub enum PlatformDisplayObserver<C> {
    MacOS(MacOSDisplayObserver<C>),
    Windows(WindowsDisplayObserver<C>),
}

/// A display observer that monitors changes to the display configuration.
pub struct DisplayObserver<C> {
    inner: PlatformDisplayObserver<C>,
}

impl<C> DisplayObserver<C> {
    /// The platform's observer inside.
    pub closed spec fn inner(&self) -> PlatformDisplayObserver<C> {
        self.inner
    }

    /// The core of the observer.
    pub open spec fn dispatch(&self) -> DispatchCore<C> {
        match self.inner() {
            PlatformDisplayObserver::MacOS(observer) => observer.dispatch(),
            PlatformDisplayObserver::Windows(observer) => observer.dispatch(),
        }
    }

    /// The platform of the observer.
    pub open spec fn platform(&self) -> Platform {
        match self.inner() {
            PlatformDisplayObserver::MacOS(_) => Platform::MacOS,
            PlatformDisplayObserver::Windows(_) => Platform::Windows,
        }
    }

    /// The validity of an observer: that of its core.
    pub open spec fn wf(&self) -> bool {
        self.dispatch().wf()
    }

    /// Create the display observer instance for a platform from the outcome
    /// of the first capture of the displays. Where that capture failed, so
    /// does the initialization.
    pub fn new(platform: Platform, first_capture: Result<Vec<Display>, PlatformError>) -> (r:
        Result<Self, Error>)
        ensures
            match (first_capture, r) {
                (Ok(records), Ok(observer)) => {
                    &&& observer.wf()
                    &&& observer.platform() == platform
                    &&& observer.dispatch().callback() is None
                    &&& observer.dispatch().snapshot()@ == map_of(display_views(records@))
                },
                (Err(e), Err(f)) => f == Error::InitializationError(e),
                _ => false,
            },
    {
        let inner = match platform {
            Platform::MacOS => match MacOSDisplayObserver::new(first_capture) {
                Ok(observer) => Ok(PlatformDisplayObserver::MacOS(observer)),
                Err(e) => Err(e),
            },
            Platform::Windows => match WindowsDisplayObserver::new(first_capture) {
                Ok(observer) => Ok(PlatformDisplayObserver::Windows(observer)),
                Err(e) => Err(e),
            },
        };
        match Error::during_initialization(inner) {
            Ok(inner) => Ok(DisplayObserver { inner }),
            Err(e) => Err(e),
        }
    }

    /// The observer around a platform's observer.
    pub fn from_platform(inner: PlatformDisplayObserver<C>) -> (r: Self)
        ensures
            r.inner() == inner,
    {
        DisplayObserver { inner }
    }

    /// The platform's observer inside, given up by the observer.
    pub fn into_platform(self) -> (r: PlatformDisplayObserver<C>)
        ensures
            r == self.inner(),
    {
        self.inner
    }

    /// Returns the Windows-specific observer, if this is one.
    pub fn windows_display_observer(&self) -> (r: Option<&WindowsDisplayObserver<C>>)
        ensures
            match r {
                Some(observer) => self.inner() == PlatformDisplayObserver::Windows(*observer),
                None => self.platform() == Platform::MacOS,
            },
    {
        match &self.inner {
            PlatformDisplayObserver::Windows(observer) => Some(observer),
            PlatformDisplayObserver::MacOS(_) => None,
        }
    }

    /// Returns the macOS-specific observer, if this is one.
    pub fn macos_display_observer(&self) -> (r: Option<&MacOSDisplayObserver<C>>)
        ensures
            match r {
                Some(observer) => self.inner() == PlatformDisplayObserver::MacOS(*observer),
                None => self.platform() == Platform::Windows,
            },
    {
        match &self.inner {
            PlatformDisplayObserver::MacOS(observer) => Some(observer),
            PlatformDisplayObserver::Windows(_) => None,
        }
    }

    /// Sets the callback function to be invoked when a display event occurs.
    /// A callback set before is discarded.
    pub fn set_callback(&mut self, callback: C)
        ensures
            final(self).dispatch().callback() == Some(callback),
            final(self).dispatch().snapshot() == old(self).dispatch().snapshot(),
            final(self).platform() == old(self).platform(),
    {
        match &mut self.inner {
            PlatformDisplayObserver::MacOS(observer) => observer.set_callback(callback),
            PlatformDisplayObserver::Windows(observer) => observer.set_callback(callback),
        }
    }

    /// Removes the currently set callback function. After calling this, no
    /// display events will be dispatched.
    pub fn remove_callback(&mut self)
        ensures
            final(self).dispatch().callback() is None,
            final(self).dispatch().snapshot() == old(self).dispatch().snapshot(),
            final(self).platform() == old(self).platform(),
    {
        match &mut self.inner {
            PlatformDisplayObserver::MacOS(observer) => observer.remove_callback(),
            PlatformDisplayObserver::Windows(observer) => observer.remove_callback(),
        }
    }

    /// The registered callback, to be called with the events of a batch.
    pub fn callback_mut(&mut self) -> (r: Option<&mut C>)
        ensures
            final(self).dispatch().snapshot() == old(self).dispatch().snapshot(),
            final(self).platform() == old(self).platform(),
            match r {
                Some(c) => old(self).dispatch().callback() == Some(*c) && final(
                    self
                ).dispatch().callback() == Some(*final(c)),
                None => old(self).dispatch().callback() is None && final(
                    self
                ).dispatch().callback() is None,
            },
    {
        match &mut self.inner {
            PlatformDisplayObserver::MacOS(observer) => observer.callback_mut(),
            PlatformDisplayObserver::Windows(observer) => observer.callback_mut(),
        }
    }

    /// Takes a raw hint of the platform, as [`DispatchCore::notify`] does.
    pub fn notify(&mut self, hint: &RawHint) -> (r: Notified)
        requires
            old(self).wf(),
        ensures
            final(self).wf(),
            final(self).platform() == old(self).platform(),
            final(self).dispatch().callback() == old(self).dispatch().callback(),
            match hint@ {
                RawHintView::RemovedId(id) => {
                    &&& final(self).dispatch().snapshot()@ == old(self).dispatch().snapshot()@.remove(id)
                    &&& r matches Notified::Dispatch(events)
                    &&& events@ == old(self).dispatch().batch(final(self).dispatch().snapshot())
                },
                _ => r is Capture && final(self).dispatch().snapshot() == old(
                    self
                ).dispatch().snapshot(),
            },
    {
        match &mut self.inner {
            PlatformDisplayObserver::MacOS(observer) => observer.notify(hint),
            PlatformDisplayObserver::Windows(observer) => observer.notify(hint),
        }
    }

    /// Takes the outcome of a capture that a notification asked for.
    pub fn capture_completed(&mut self, captured: Result<Vec<Display>, PlatformError>) -> (events:
        EventBuffer)
        requires
            old(self).wf(),
        ensures
            final(self).wf(),
            final(self).platform() == old(self).platform(),
            final(self).dispatch().callback() == old(self).dispatch().callback(),
            match captured {
                Ok(records) => {
                    &&& final(self).dispatch().snapshot()@ == map_of(display_views(records@))
                    &&& events@ == old(self).dispatch().batch(final(self).dispatch().snapshot())
                },
                Err(_) => {
                    &&& final(self).dispatch().snapshot() == old(self).dispatch().snapshot()
                    &&& events@ == Seq::<EventView>::empty()
                },
            },
    {
        match &mut self.inner {
            PlatformDisplayObserver::MacOS(observer) => observer.capture_completed(captured),
            PlatformDisplayObserver::Windows(observer) => observer.capture_completed(captured),
        }
    }

    /// Says which loop of the platform is to run so that events arrive.
    ///
    /// On macOS the loop runs on the main thread only: a caller on another
    /// thread must not come here.
    pub fn run(&self, on_main_thread: bool) -> (r: RunLoop)
        requires
            self.platform() == Platform::MacOS ==> on_main_thread,
        ensures
            r == match self.platform() {
                Platform::MacOS => RunLoop::Application,
                Platform::Windows => RunLoop::Messages,
            },
    {
        match &self.inner {
            PlatformDisplayObserver::MacOS(observer) => observer.run(on_main_thread),
            PlatformDisplayObserver::Windows(observer) => observer.run(),
        }
    }
}

} // verus!
