use display_config::id::Position;
use display_config::{Display, DisplayId, Event, MayBeDisplayAvailable, Origin, Size, Snapshot, WindowsDisplayId};

fn mac(id: u32, x: i32) -> Display {
    Display {
        id: DisplayId::from_macos(id),
        origin: Origin::new(x, 0),
        size: Size::new(100, 100),
        scale_factor: None,
        is_primary: false,
        is_mirrored: false,
    }
}

fn wide(name: &str) -> Vec<u16> {
    name.encode_utf16().collect()
}

fn win_id(name: &str) -> DisplayId {
    DisplayId::from_windows(WindowsDisplayId::new(wide(name)))
}

#[test]
fn identities_are_ordered_totally() {
    assert_eq!(DisplayId::from_macos(1).position(&DisplayId::from_macos(2)), Position::Before);
    assert_eq!(DisplayId::from_macos(2).position(&DisplayId::from_macos(1)), Position::After);
    assert_eq!(DisplayId::from_macos(2).position(&DisplayId::from_macos(2)), Position::Same);
    assert_eq!(DisplayId::from_macos(u32::MAX).position(&win_id("")), Position::Before);
    assert_eq!(win_id("").position(&DisplayId::from_macos(0)), Position::After);
    assert_eq!(win_id("A").position(&win_id("AB")), Position::Before);
    assert_eq!(win_id("AB").position(&win_id("A")), Position::After);
    assert_eq!(win_id("AB").position(&win_id("AC")), Position::Before);
    assert_eq!(win_id("B").position(&win_id("AC")), Position::After);
    assert_eq!(win_id("AB").position(&win_id("AB")), Position::Same);
}

#[test]
fn identities_compare_by_what_they_hold() {
    assert_eq!(DisplayId::from_macos(5), DisplayId::from_macos(5));
    assert_ne!(DisplayId::from_macos(5), DisplayId::from_macos(6));
    assert_eq!(win_id("\\\\.\\DISPLAY1"), win_id("\\\\.\\DISPLAY1"));
    assert_ne!(win_id("\\\\.\\DISPLAY1"), win_id("\\\\.\\DISPLAY2"));
    assert_ne!(win_id("5"), DisplayId::from_macos(5));
    assert_eq!(DisplayId::from_macos(5).clone(), DisplayId::from_macos(5));
    assert_eq!(win_id("x").clone(), win_id("x"));
}

#[test]
fn platform_identities_are_handed_out() {
    let m = DisplayId::from_macos(42);
    assert_eq!(m.macos_id(), Some(42));
    assert!(m.windows_id().is_none());
    let w = win_id("\\\\.\\DISPLAY3");
    assert_eq!(w.macos_id(), None);
    assert_eq!(w.windows_id().unwrap().device_name(), &wide("\\\\.\\DISPLAY3"));
}

#[test]
fn from_records_keeps_the_later_of_two_records_with_one_identity() {
    let s = Snapshot::from_records(vec![mac(1, 0), mac(2, 5), mac(1, 9)]);
    assert_eq!(s.len(), 2);
    assert_eq!(s.get(&DisplayId::from_macos(1)), Some(&mac(1, 9)));
    assert_eq!(s.get(&DisplayId::from_macos(2)), Some(&mac(2, 5)));
    assert_eq!(s.get(&DisplayId::from_macos(3)), None);
}

#[test]
fn snapshot_entries_stand_in_canonical_order() {
    let s = Snapshot::from_records(vec![mac(30, 0), mac(10, 0), mac(20, 0)]);
    assert_eq!(s.displays(), &vec![mac(10, 0), mac(20, 0), mac(30, 0)]);
    assert_eq!(s.entry(0), &mac(10, 0));
    assert_eq!(s.entry(2), &mac(30, 0));
}

#[test]
fn insert_adds_or_replaces() {
    let mut s = Snapshot::new();
    assert_eq!(s.len(), 0);
    s.insert(mac(2, 0));
    s.insert(mac(1, 0));
    assert_eq!(s.len(), 2);
    assert!(s.contains(&DisplayId::from_macos(1)));
    s.insert(mac(2, 7));
    assert_eq!(s.len(), 2);
    assert_eq!(s.get(&DisplayId::from_macos(2)), Some(&mac(2, 7)));
}

#[test]
fn remove_takes_the_display_out() {
    let mut s = Snapshot::from_records(vec![mac(1, 0), mac(2, 0), mac(3, 0)]);
    assert_eq!(s.remove(&DisplayId::from_macos(2)), Some(mac(2, 0)));
    assert_eq!(s.len(), 2);
    assert!(!s.contains(&DisplayId::from_macos(2)));
    assert_eq!(s.remove(&DisplayId::from_macos(2)), None);
    assert_eq!(s.displays(), &vec![mac(1, 0), mac(3, 0)]);
}

#[test]
fn events_know_their_display() {
    let d = mac(1, 0);
    let added = Event::Added(d.clone());
    assert_eq!(added.id(), &d.id);
    assert_eq!(added.display(), Some(&d));
    let removed = Event::Removed(d.id.clone());
    assert_eq!(removed.id(), &d.id);
    assert_eq!(removed.display(), None);
    assert_ne!(added, removed);
    assert_eq!(added.clone(), added);
    assert_ne!(Event::Mirrored(d.clone()), Event::UnMirrored(d));
}

#[test]
fn wrapping_goes_by_whether_the_display_is_left() {
    let d = mac(1, 0);
    match MayBeDisplayAvailable::from_event(Event::Mirrored(d.clone())) {
        MayBeDisplayAvailable::Available { display, event } => {
            assert_eq!(display, d);
            assert_eq!(event, Event::Mirrored(d.clone()));
        }
        MayBeDisplayAvailable::NotAvailable { .. } => panic!("a mirrored display is available"),
    }
    let wrapped = MayBeDisplayAvailable::from_event(Event::Removed(d.id.clone()));
    assert_eq!(wrapped.event(), &Event::Removed(d.id.clone()));
    assert!(matches!(wrapped, MayBeDisplayAvailable::NotAvailable { .. }));
}
