use display_config::{
    Display, DisplayId, DispatchCore, Error, Event, MayBeDisplayAvailable, Notified, Origin, PlatformError,
    RawHint, Size, Snapshot,
};

fn mac(id: u32, x: i32, y: i32, width: u32, height: u32, primary: bool) -> Display {
    Display {
        id: DisplayId::from_macos(id),
        origin: Origin::new(x, y),
        size: Size::new(width, height),
        scale_factor: None,
        is_primary: primary,
        is_mirrored: false,
    }
}

fn core_with(records: Vec<Display>) -> DispatchCore<u8> {
    DispatchCore::new(Snapshot::from_records(records))
}

#[test]
fn failed_capture_leaves_snapshot_and_delivers_nothing() {
    let d1 = mac(1, 0, 0, 1920, 1080, true);
    let mut core = core_with(vec![d1.clone()]);
    core.set_callback(1);
    assert!(matches!(core.notify(&RawHint::GeometryOrModeChanged), Notified::Capture));
    let events = core.capture_completed(Err(PlatformError::new(1001)));
    assert_eq!(events.len(), 0);
    assert_eq!(core.retained().displays(), &vec![d1]);
    assert_eq!(core.callback_mut(), Some(&mut 1));
}

#[test]
fn second_callback_replaces_the_first() {
    let mut core = core_with(vec![]);
    assert!(!core.has_callback());
    assert_eq!(core.callback_mut(), None);
    core.set_callback(b'A');
    core.set_callback(b'B');
    assert!(core.has_callback());
    assert_eq!(core.callback_mut(), Some(&mut b'B'));
}

#[test]
fn dispatched_events_reach_the_second_callback_only() {
    let mut seen_a: Vec<Event> = Vec::new();
    let mut seen_b: Vec<Event> = Vec::new();
    {
        let mut core: DispatchCore<Box<dyn FnMut(Event) + '_>> = DispatchCore::new(Snapshot::new());
        core.set_callback(Box::new(|e| seen_a.push(e)));
        core.set_callback(Box::new(|e| seen_b.push(e)));
        assert!(matches!(core.notify(&RawHint::AddedId(DisplayId::from_macos(1))), Notified::Capture));
        let events = core.capture_completed(Ok(vec![mac(1, 0, 0, 10, 10, true)]));
        let callback = core.callback_mut().unwrap();
        for event in events.into_vec() {
            callback(event);
        }
    }
    assert_eq!(seen_a, Vec::<Event>::new());
    assert_eq!(seen_b, vec![Event::Added(mac(1, 0, 0, 10, 10, true))]);
}

#[test]
fn removed_callback_keeps_the_snapshot_up_to_date() {
    let d1 = mac(1, 0, 0, 1920, 1080, true);
    let d2 = mac(2, 1920, 0, 1280, 1024, false);
    let mut core = core_with(vec![d1.clone()]);
    core.set_callback(1);
    core.remove_callback();
    assert!(!core.has_callback());
    let events = core.capture_completed(Ok(vec![d1.clone(), d2.clone()]));
    assert_eq!(events.len(), 0);
    assert_eq!(core.retained().displays(), &vec![d1.clone(), d2.clone()]);
    core.set_callback(2);
    let events = core.capture_completed(Ok(vec![d1]));
    assert_eq!(events.into_vec(), vec![Event::Removed(d2.id)]);
}

#[test]
fn removal_never_stands_beside_an_available_event_of_the_same_display() {
    let mut core = core_with(vec![
        mac(1, 0, 0, 1920, 1080, true),
        mac(2, 1920, 0, 1280, 1024, false),
        mac(3, 0, 0, 1, 1, false),
    ]);
    core.set_callback(0);
    let batch = core
        .capture_completed(Ok(vec![mac(1, 5, 5, 800, 600, true), mac(4, 0, 0, 2, 2, false)]))
        .into_vec();
    assert_eq!(batch.len(), 5);
    let removed: Vec<DisplayId> = batch
        .iter()
        .filter_map(|e| if let Event::Removed(id) = e { Some(id.clone()) } else { None })
        .collect();
    assert_eq!(removed, vec![DisplayId::from_macos(2), DisplayId::from_macos(3)]);
    for event in batch {
        if let MayBeDisplayAvailable::Available { display, .. } = MayBeDisplayAvailable::from_event(event) {
            assert!(!removed.contains(&display.id));
        }
    }
}

#[test]
fn end_to_end_second_display_is_added() {
    let d1 = mac(1, 0, 0, 1920, 1080, true);
    let d2 = mac(2, 1920, 0, 1280, 1024, false);
    let mut core = core_with(vec![d1.clone()]);
    core.set_callback(0);
    let hint = RawHint::GeometryOrModeChanged;
    assert!(matches!(core.notify(&hint), Notified::Capture));
    let events = core.capture_completed(Ok(vec![d1.clone(), d2.clone()])).into_vec();
    assert_eq!(events, vec![Event::Added(d2.clone())]);
    assert_eq!(core.retained().displays(), &vec![d1, d2]);
}

#[test]
fn removal_hint_needs_no_capture() {
    let d1 = mac(1, 0, 0, 1920, 1080, true);
    let d2 = mac(2, 1920, 0, 1280, 1024, false);
    let mut core = core_with(vec![d1.clone(), d2.clone()]);
    core.set_callback(0);
    let hint = RawHint::RemovedId(d2.id.clone());
    match core.notify(&hint) {
        Notified::Dispatch(events) => assert_eq!(events.into_vec(), vec![Event::Removed(d2.id.clone())]),
        Notified::Capture => panic!("a removal says everything"),
    }
    assert_eq!(core.retained().displays(), &vec![d1.clone()]);
    match core.notify(&hint) {
        Notified::Dispatch(events) => assert_eq!(events.len(), 0),
        Notified::Capture => panic!("a removal says everything"),
    }
    assert_eq!(core.retained().displays(), &vec![d1]);
}

#[test]
fn hints_other_than_removal_ask_for_a_capture_and_change_nothing() {
    let d1 = mac(1, 0, 0, 1920, 1080, true);
    let mut core = core_with(vec![d1.clone()]);
    core.set_callback(0);
    for hint in [
        RawHint::AddedId(DisplayId::from_macos(2)),
        RawHint::MirrorToggled(DisplayId::from_macos(1)),
        RawHint::GeometryOrModeChanged,
    ] {
        assert!(matches!(core.notify(&hint), Notified::Capture));
        assert_eq!(core.retained().displays(), &vec![d1.clone()]);
    }
}

#[test]
fn errors_say_what_failed() {
    let e = PlatformError::new(-5);
    assert_eq!(Error::from(e), Error::PlatformError(e));
    assert_eq!(Error::PlatformError(e).message(), "A platform-specific error has occurred.");
    assert_eq!(Error::InitializationError(e).message(), "Initialization failed.");
    assert_eq!(Error::InitializationError(e).platform_error(), e);
    assert_eq!(PlatformError::into_result(0, 7u8), Ok(7u8));
    assert_eq!(PlatformError::into_result(1004, 7u8), Err(PlatformError::new(1004)));
}
