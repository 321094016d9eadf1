//! Watches the set of active displays and reports structured change events.
//!
//! The library holds the event model, the engine that compares two snapshots
//! of the display configuration, and the core that keeps the last snapshot and
//! the registered callback. Querying the operating system and running its
//! event loop are left to the caller.

pub mod buffer;
pub mod diff;
pub mod dispatch;
pub mod display;
pub mod error;
pub mod event;
pub mod geometry;
pub mod id;
pub mod laws;
pub mod macos;
pub mod observer;
pub mod snapshot;
pub mod windows;

pub use buffer::EventBuffer;
pub use diff::diff;
pub use dispatch::{DispatchCore, Notified, RawHint, RunLoop};
pub use display::{Display, DisplayView};
pub use error::{Error, PlatformError};
pub use event::{Event, EventView, MayBeDisplayAvailable, MayBeDisplayAvailableView};
pub use geometry::{Origin, ScaleFactor, Size, USER_DEFAULT_SCREEN_DPI};
pub use id::{
    DisplayId, DisplayIdView, MacOSDisplayId, PlatformDisplayId, Position, WindowsDisplayId,
};
pub use macos::{MacOSDisplay, MacOSDisplayObserver};
pub use observer::{DisplayObserver, Platform, PlatformDisplayObserver};
pub use snapshot::Snapshot;
pub use windows::WindowsDisplayObserver;
