use display_config::macos::{self, MacOSDisplay};
use display_config::windows::{self, MonitorRect};
use display_config::{
    Display, DisplayId, DisplayObserver, Error, Event, MacOSDisplayObserver, Notified, Origin, Platform,
    PlatformDisplayObserver, PlatformError, RawHint, RunLoop, ScaleFactor, Size, WindowsDisplayId,
    WindowsDisplayObserver,
};

fn wide(name: &str) -> Vec<u16> {
    name.encode_utf16().collect()
}

fn mac(id: u32, x: i32, width: u32) -> Display {
    MacOSDisplay::new(id, Origin::new(x, 0), Size::new(width, 600), id == 1, 0).to_display()
}

#[test]
fn begin_configuration_is_passed_over() {
    assert!(macos::classify(1, macos::BEGIN_CONFIGURATION_FLAG).is_none());
    assert!(macos::classify(1, macos::BEGIN_CONFIGURATION_FLAG | macos::ADD_FLAG).is_none());
    assert!(macos::classify(1, 0).is_none());
    assert!(macos::classify(1, 0x0004).is_none());
}

#[test]
fn flags_are_classified_in_a_fixed_order() {
    assert!(matches!(macos::classify(7, macos::ADD_FLAG), Some(RawHint::AddedId(id)) if id == DisplayId::from_macos(7)));
    assert!(matches!(
        macos::classify(7, macos::ADD_FLAG | macos::REMOVE_FLAG | macos::MOVED_FLAG),
        Some(RawHint::AddedId(_))
    ));
    assert!(matches!(macos::classify(7, macos::REMOVE_FLAG | macos::MIRROR_FLAG), Some(RawHint::RemovedId(id)) if id == DisplayId::from_macos(7)));
    assert!(matches!(macos::classify(7, macos::MIRROR_FLAG | macos::SET_MODE_FLAG), Some(RawHint::MirrorToggled(_))));
    assert!(matches!(macos::classify(7, macos::UN_MIRROR_FLAG), Some(RawHint::MirrorToggled(_))));
    assert!(matches!(macos::classify(7, macos::SET_MODE_FLAG), Some(RawHint::GeometryOrModeChanged)));
    assert!(matches!(macos::classify(7, macos::MOVED_FLAG), Some(RawHint::GeometryOrModeChanged)));
    assert!(macos::contains_flag(0x0412, macos::MIRROR_FLAG));
    assert!(!macos::contains_flag(0x0412, macos::REMOVE_FLAG));
}

#[test]
fn active_ids_are_the_first_of_the_buffer() {
    let buffer = vec![5, 6, 7, 0, 0];
    assert_eq!(macos::active_ids(&buffer, 3), vec![5, 6, 7]);
    assert_eq!(macos::active_ids(&buffer, 0), Vec::<u32>::new());
    assert_eq!(macos::active_ids(&buffer, 9), buffer);
    assert_eq!(macos::MAX_DISPLAYS, 20);
}

#[test]
fn macos_display_reports_what_core_graphics_said() {
    let d = MacOSDisplay::new(3, Origin::new(-1280, 0), Size::new(1280, 1024), false, 1);
    assert_eq!(d.id(), 3);
    assert_eq!(d.origin(), Origin::new(-1280, 0));
    assert_eq!(d.size(), Size::new(1280, 1024));
    assert!(!d.is_primary());
    assert!(d.is_mirrored());
    assert_eq!(d.get_primary_id(), Some(1));
    let alone = MacOSDisplay::new(1, Origin::new(0, 0), Size::new(1, 1), true, macos::NULL_DIRECT_DISPLAY);
    assert!(!alone.is_mirrored());
    assert_eq!(alone.get_primary_id(), None);
    let display = d.to_display();
    assert_eq!(display.id, DisplayId::from_macos(3));
    assert_eq!(display.scale_factor, None);
    assert!(display.is_mirrored);
    assert!(!display.is_primary);
}

#[test]
fn macos_observer_follows_the_flags() {
    let mut observer: MacOSDisplayObserver<u8> =
        MacOSDisplayObserver::new(Ok(vec![mac(1, 0, 800), mac(2, 800, 800)])).unwrap();
    observer.set_callback(1);
    match observer.display_callback(2, macos::BEGIN_CONFIGURATION_FLAG) {
        Notified::Dispatch(events) => assert_eq!(events.len(), 0),
        Notified::Capture => panic!("nothing has settled yet"),
    }
    match observer.display_callback(2, macos::REMOVE_FLAG) {
        Notified::Dispatch(events) => {
            assert_eq!(events.into_vec(), vec![Event::Removed(DisplayId::from_macos(2))])
        }
        Notified::Capture => panic!("a removal says everything"),
    }
    assert!(matches!(observer.display_callback(1, macos::SET_MODE_FLAG), Notified::Capture));
    let events = observer.capture_completed(Ok(vec![mac(1, 0, 1024)])).into_vec();
    assert_eq!(
        events,
        vec![Event::SizeChanged { display: mac(1, 0, 1024), before: Size::new(800, 600), after: Size::new(1024, 600) }]
    );
    assert_eq!(observer.callback_mut(), Some(&mut 1));
    observer.remove_callback();
    assert_eq!(observer.callback_mut(), None);
    assert_eq!(observer.run(true), RunLoop::Application);
}

#[test]
fn observers_fail_with_the_error_of_the_first_capture() {
    let e = PlatformError::new(1003);
    assert!(matches!(MacOSDisplayObserver::<u8>::new(Err(e)), Err(f) if f == e));
    assert!(matches!(WindowsDisplayObserver::<u8>::new(Err(e)), Err(f) if f == e));
    assert!(matches!(
        DisplayObserver::<u8>::new(Platform::MacOS, Err(e)),
        Err(Error::InitializationError(f)) if f == e
    ));
    assert!(matches!(
        DisplayObserver::<u8>::new(Platform::Windows, Err(e)),
        Err(Error::InitializationError(f)) if f == e
    ));
}

#[test]
fn failed_hook_installation_fails_the_initialization() {
    let e = PlatformError::new(1001);
    assert_eq!(Error::during_initialization::<()>(Err(e)), Err(Error::InitializationError(e)));
    assert_eq!(Error::during_initialization(Ok(5u8)), Ok(5u8));
}

#[test]
fn device_name_ends_at_the_first_nul() {
    let mut buffer = wide("\\\\.\\DISPLAY1");
    buffer.resize(32, 0);
    assert_eq!(windows::device_id(&buffer), WindowsDisplayId::new(wide("\\\\.\\DISPLAY1")));
    assert_eq!(windows::device_id(&wide("ABC")), WindowsDisplayId::new(wide("ABC")));
    assert_eq!(windows::device_id(&vec![0, 65, 66]), WindowsDisplayId::new(Vec::new()));
    assert_eq!(windows::device_id(&vec![65, 0, 66, 0]).device_name(), &vec![65u16]);
    assert_eq!(windows::device_id(&Vec::new()), WindowsDisplayId::new(Vec::new()));
}

#[test]
fn monitor_rectangle_gives_origin_and_size() {
    let rect = MonitorRect { left: -1920, top: 0, right: 0, bottom: 1080 };
    assert_eq!(rect.origin(), Origin::new(-1920, 0));
    assert_eq!(rect.size(), Size::new(1920, 1080));
    let whole = MonitorRect { left: i32::MIN, top: i32::MIN, right: i32::MAX, bottom: i32::MIN };
    assert_eq!(whole.size(), Size::new(u32::MAX, 0));
    let inverted = MonitorRect { left: 10, top: 0, right: 0, bottom: 0 };
    assert_eq!(inverted.size(), Size::new(u32::MAX - 9, 0));
}

#[test]
fn display_is_mirrored_where_two_paths_share_its_source() {
    let a = WindowsDisplayId::new(wide("\\\\.\\DISPLAY1"));
    let b = WindowsDisplayId::new(wide("\\\\.\\DISPLAY2"));
    assert!(!windows::is_display_mirrored(&a, &vec![]));
    assert!(!windows::is_display_mirrored(&a, &vec![a.clone(), b.clone()]));
    assert!(windows::is_display_mirrored(&a, &vec![a.clone(), b.clone(), a.clone()]));
    assert!(!windows::is_display_mirrored(&b, &vec![a.clone(), b.clone(), a.clone()]));
    assert!(windows::is_display_mirrored(&b, &vec![b.clone(), b.clone(), b.clone()]));
}

#[test]
fn scale_factor_falls_back_step_by_step() {
    assert_eq!(windows::get_scale_factor(Some(144), false, 120), ScaleFactor::from_dpi(144));
    assert_eq!(windows::get_scale_factor(None, true, 120), ScaleFactor::from_dpi(120));
    assert_eq!(windows::get_scale_factor(None, false, 120), ScaleFactor::from_dpi(96));
    assert_eq!(windows::get_scale_factor(Some(0), true, 120), ScaleFactor::from_dpi(0));
    assert_eq!(display_config::USER_DEFAULT_SCREEN_DPI, 96);
}

#[test]
fn monitor_becomes_a_display() {
    let mut device = wide("\\\\.\\DISPLAY2");
    device.resize(32, 0);
    let rect = MonitorRect { left: 1920, top: -200, right: 3200, bottom: 824 };
    let display = windows::monitor_display(&device, rect, 1, true, ScaleFactor::from_dpi(120));
    assert_eq!(display.id, DisplayId::from_windows(WindowsDisplayId::new(wide("\\\\.\\DISPLAY2"))));
    assert_eq!(display.origin, Origin::new(1920, -200));
    assert_eq!(display.size, Size::new(1280, 1024));
    assert_eq!(display.scale_factor, Some(ScaleFactor::from_dpi(120)));
    assert!(display.is_primary);
    assert!(display.is_mirrored);
    let other = windows::monitor_display(&device, rect, 0xfffe, false, ScaleFactor::from_dpi(96));
    assert!(!other.is_primary);
    assert!(!other.is_mirrored);
}

#[test]
fn only_a_display_change_message_gives_a_hint() {
    assert!(matches!(windows::classify(windows::WM_DISPLAYCHANGE), Some(RawHint::GeometryOrModeChanged)));
    assert!(matches!(windows::classify(126), Some(RawHint::GeometryOrModeChanged)));
    assert!(windows::classify(0).is_none());
    assert!(windows::classify(0x0219).is_none());
}

#[test]
fn windows_observer_rescans_on_display_change() {
    let rect = MonitorRect { left: 0, top: 0, right: 800, bottom: 600 };
    let first = windows::monitor_display(&wide("\\\\.\\DISPLAY1"), rect, 1, false, ScaleFactor::from_dpi(96));
    let mut observer: WindowsDisplayObserver<u8> = WindowsDisplayObserver::new(Ok(vec![first.clone()])).unwrap();
    observer.set_callback(9);
    match observer.process_window_message(0x0010) {
        Notified::Dispatch(events) => assert_eq!(events.len(), 0),
        Notified::Capture => panic!("no hint in this message"),
    }
    assert!(matches!(observer.process_window_message(windows::WM_DISPLAYCHANGE), Notified::Capture));
    let moved = windows::monitor_display(
        &wide("\\\\.\\DISPLAY1"),
        MonitorRect { left: 10, top: 0, right: 810, bottom: 600 },
        1,
        false,
        ScaleFactor::from_dpi(96),
    );
    let events = observer.capture_completed(Ok(vec![moved.clone()])).into_vec();
    assert_eq!(
        events,
        vec![Event::OriginChanged { display: moved, before: Origin::new(0, 0), after: Origin::new(10, 0) }]
    );
    assert_eq!(observer.callback_mut(), Some(&mut 9));
    assert_eq!(observer.run(), RunLoop::Messages);
}

#[test]
fn facade_forwards_to_its_platform() {
    let mut observer: DisplayObserver<u8> = DisplayObserver::new(Platform::MacOS, Ok(vec![mac(1, 0, 800)])).unwrap();
    assert!(observer.macos_display_observer().is_some());
    assert!(observer.windows_display_observer().is_none());
    assert_eq!(observer.run(true), RunLoop::Application);
    observer.set_callback(1);
    observer.set_callback(2);
    assert_eq!(observer.callback_mut(), Some(&mut 2));
    assert!(matches!(observer.notify(&RawHint::GeometryOrModeChanged), Notified::Capture));
    let events = observer.capture_completed(Ok(vec![mac(1, 0, 800), mac(2, 800, 640)])).into_vec();
    assert_eq!(events, vec![Event::Added(mac(2, 800, 640))]);
    observer.remove_callback();
    assert_eq!(observer.callback_mut(), None);
    let events = observer.capture_completed(Err(PlatformError::new(1)));
    assert_eq!(events.len(), 0);
    match observer.notify(&RawHint::RemovedId(DisplayId::from_macos(2))) {
        Notified::Dispatch(events) => assert_eq!(events.len(), 0),
        Notified::Capture => panic!("a removal says everything"),
    }

    let windows_observer: DisplayObserver<u8> = DisplayObserver::new(Platform::Windows, Ok(vec![])).unwrap();
    assert!(windows_observer.windows_display_observer().is_some());
    assert!(windows_observer.macos_display_observer().is_none());
    assert_eq!(windows_observer.run(false), RunLoop::Messages);
    let inner = windows_observer.into_platform();
    assert!(matches!(inner, PlatformDisplayObserver::Windows(_)));
    let again = DisplayObserver::from_platform(inner);
    assert!(again.windows_display_observer().is_some());
}

#[test]
fn enumeration_gathers_until_something_fails() {
    let rect = MonitorRect { left: 0, top: 0, right: 800, bottom: 600 };
    let one = windows::monitor_display(&wide("\\\\.\\DISPLAY1"), rect, 1, false, ScaleFactor::from_dpi(96));
    let two = windows::monitor_display(&wide("\\\\.\\DISPLAY2"), rect, 0, false, ScaleFactor::from_dpi(96));

    let mut all = windows::EnumDisplayMonitorsUserData::new();
    assert!(all.monitor_described(one.clone()));
    assert!(all.monitor_described(two.clone()));
    assert_eq!(all.finish(), Ok(vec![one.clone(), two.clone()]));

    let mut skipped = windows::EnumDisplayMonitorsUserData::new();
    assert!(skipped.monitor_described(one.clone()));
    assert!(skipped.monitor_info_failed(PlatformError::new(-1)));
    assert!(skipped.monitor_described(two));
    assert_eq!(skipped.finish(), Err(PlatformError::new(-1)));

    let mut stopped = windows::EnumDisplayMonitorsUserData::new();
    assert!(stopped.monitor_info_failed(PlatformError::new(-1)));
    assert!(!stopped.mirror_query_failed(PlatformError::new(-2)));
    assert_eq!(stopped.finish(), Err(PlatformError::new(-2)));

    assert_eq!(windows::EnumDisplayMonitorsUserData::new().finish(), Ok(Vec::<Display>::new()));
}
