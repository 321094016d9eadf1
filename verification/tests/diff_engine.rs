use display_config::diff::diff;
use display_config::{Display, DisplayId, Event, Origin, ScaleFactor, Size, Snapshot, WindowsDisplayId};

fn mac(id: u32, x: i32, y: i32, width: u32, height: u32, primary: bool, mirrored: bool) -> Display {
    Display {
        id: DisplayId::from_macos(id),
        origin: Origin::new(x, y),
        size: Size::new(width, height),
        scale_factor: None,
        is_primary: primary,
        is_mirrored: mirrored,
    }
}

fn wide(name: &str) -> Vec<u16> {
    name.encode_utf16().collect()
}

fn win(name: &str, x: i32, y: i32, width: u32, height: u32) -> Display {
    Display {
        id: DisplayId::from_windows(WindowsDisplayId::new(wide(name))),
        origin: Origin::new(x, y),
        size: Size::new(width, height),
        scale_factor: Some(ScaleFactor::from_dpi(96)),
        is_primary: false,
        is_mirrored: false,
    }
}

#[test]
fn diff_of_a_snapshot_with_itself_is_empty() {
    let s = Snapshot::from_records(vec![
        mac(1, 0, 0, 1920, 1080, true, false),
        mac(2, 1920, 0, 1280, 1024, false, false),
        win("\\\\.\\DISPLAY1", 0, 0, 800, 600),
    ]);
    assert_eq!(diff(&s, &s).len(), 0);
    assert_eq!(diff(&s, &s.clone()).into_vec(), Vec::<Event>::new());
}

#[test]
fn diff_of_empty_snapshots_is_empty() {
    assert_eq!(diff(&Snapshot::new(), &Snapshot::new()).len(), 0);
}

#[test]
fn one_added_display_gives_added_and_back_removed() {
    let d1 = mac(1, 0, 0, 1920, 1080, true, false);
    let d2 = mac(2, 1920, 0, 1280, 1024, false, false);
    let d3 = mac(3, 3200, 0, 800, 600, false, false);
    let s0 = Snapshot::from_records(vec![d1.clone(), d3.clone()]);
    let s1 = Snapshot::from_records(vec![d1, d2.clone(), d3]);
    assert_eq!(diff(&s0, &s1).into_vec(), vec![Event::Added(d2.clone())]);
    assert_eq!(diff(&s1, &s0).into_vec(), vec![Event::Removed(d2.id)]);
}

#[test]
fn diff_does_not_depend_on_record_order() {
    let a = mac(7, 0, 0, 1920, 1080, true, false);
    let b = mac(3, 1920, 0, 1280, 1024, false, false);
    let c = win("\\\\.\\DISPLAY2", 0, 0, 800, 600);
    let old = Snapshot::from_records(vec![mac(3, 0, 0, 640, 480, false, true), mac(9, 5, 5, 10, 10, false, false)]);
    let first = Snapshot::from_records(vec![a.clone(), b.clone(), c.clone()]);
    let second = Snapshot::from_records(vec![c, a, b]);
    assert_eq!(first.displays(), second.displays());
    assert_eq!(diff(&old, &first).into_vec(), diff(&old, &second).into_vec());
    assert_eq!(diff(&first, &old).into_vec(), diff(&second, &old).into_vec());
    assert_eq!(diff(&first, &second).len(), 0);
}

#[test]
fn size_then_origin_for_one_display() {
    let before = mac(1, 0, 0, 800, 600, true, false);
    let after = mac(1, 100, 0, 1920, 1080, true, false);
    let events = diff(
        &Snapshot::from_records(vec![before]),
        &Snapshot::from_records(vec![after.clone()]),
    )
    .into_vec();
    assert_eq!(
        events,
        vec![
            Event::SizeChanged {
                display: after.clone(),
                before: Size::new(800, 600),
                after: Size::new(1920, 1080),
            },
            Event::OriginChanged {
                display: after,
                before: Origin::new(0, 0),
                after: Origin::new(100, 0),
            },
        ]
    );
}

#[test]
fn size_origin_and_mirroring_give_three_events_in_order() {
    let before = mac(1, 0, 0, 800, 600, true, false);
    let after = mac(1, 10, 20, 1024, 768, true, true);
    let events = diff(
        &Snapshot::from_records(vec![before.clone()]),
        &Snapshot::from_records(vec![after.clone()]),
    )
    .into_vec();
    assert_eq!(events.len(), 3);
    assert_eq!(
        events[0],
        Event::SizeChanged { display: after.clone(), before: Size::new(800, 600), after: Size::new(1024, 768) }
    );
    assert_eq!(
        events[1],
        Event::OriginChanged { display: after.clone(), before: Origin::new(0, 0), after: Origin::new(10, 20) }
    );
    assert_eq!(events[2], Event::Mirrored(after.clone()));

    let back = diff(
        &Snapshot::from_records(vec![after]),
        &Snapshot::from_records(vec![before.clone()]),
    )
    .into_vec();
    assert_eq!(
        back,
        vec![
            Event::SizeChanged { display: before.clone(), before: Size::new(1024, 768), after: Size::new(800, 600) },
            Event::OriginChanged { display: before.clone(), before: Origin::new(10, 20), after: Origin::new(0, 0) },
            Event::UnMirrored(before),
        ]
    );
}

#[test]
fn mirroring_alone_gives_one_event() {
    let before = mac(4, 0, 0, 800, 600, false, false);
    let after = mac(4, 0, 0, 800, 600, false, true);
    let to = diff(&Snapshot::from_records(vec![before.clone()]), &Snapshot::from_records(vec![after.clone()]));
    assert_eq!(to.into_vec(), vec![Event::Mirrored(after.clone())]);
    let back = diff(&Snapshot::from_records(vec![after]), &Snapshot::from_records(vec![before.clone()]));
    assert_eq!(back.into_vec(), vec![Event::UnMirrored(before)]);
}

#[test]
fn primary_flag_and_scale_alone_give_no_event() {
    let before = mac(4, 0, 0, 800, 600, false, false);
    let mut after = mac(4, 0, 0, 800, 600, true, false);
    after.scale_factor = Some(ScaleFactor::from_dpi(192));
    let events = diff(&Snapshot::from_records(vec![before]), &Snapshot::from_records(vec![after]));
    assert_eq!(events.len(), 0);
}

#[test]
fn events_of_different_displays_follow_the_canonical_order() {
    let old = Snapshot::from_records(vec![
        win("\\\\.\\DISPLAY1", 0, 0, 800, 600),
        mac(9, 0, 0, 800, 600, false, false),
        mac(2, 0, 0, 800, 600, false, false),
    ]);
    let moved = mac(9, 50, 0, 800, 600, false, false);
    let added = win("\\\\.\\DISPLAY10", 0, 0, 1, 1);
    let first = mac(1, 0, 0, 1, 1, false, false);
    let new = Snapshot::from_records(vec![added.clone(), moved.clone(), first.clone()]);
    let events = diff(&old, &new).into_vec();
    assert_eq!(
        events,
        vec![
            Event::Added(first),
            Event::Removed(DisplayId::from_macos(2)),
            Event::OriginChanged { display: moved, before: Origin::new(0, 0), after: Origin::new(50, 0) },
            Event::Removed(DisplayId::from_windows(WindowsDisplayId::new(wide("\\\\.\\DISPLAY1")))),
            Event::Added(added),
        ]
    );
}

#[test]
fn everything_removed_and_everything_added() {
    let a = mac(1, 0, 0, 1, 1, true, false);
    let b = mac(2, 1, 0, 1, 1, false, false);
    let full = Snapshot::from_records(vec![b.clone(), a.clone()]);
    let gone = diff(&full, &Snapshot::new()).into_vec();
    assert_eq!(gone, vec![Event::Removed(a.id.clone()), Event::Removed(b.id.clone())]);
    let came = diff(&Snapshot::new(), &full).into_vec();
    assert_eq!(came, vec![Event::Added(a), Event::Added(b)]);
}

#[test]
fn more_events_than_the_buffer_holds_inline() {
    let mut records = Vec::new();
    for id in 0..25u32 {
        records.push(mac(id, id as i32, 0, 1, 1, false, false));
    }
    let full = Snapshot::from_records(records);
    let events = diff(&Snapshot::new(), &full);
    assert_eq!(events.len(), 25);
    let events = events.into_vec();
    for (i, event) in events.iter().enumerate() {
        assert_eq!(event.id(), &DisplayId::from_macos(i as u32));
    }
}

fn undoes(forth: &Event, back: &Event) -> bool {
    match (forth, back) {
        (Event::Added(d), Event::Removed(id)) | (Event::Removed(id), Event::Added(d)) => &d.id == id,
        (
            Event::SizeChanged { display: d, before: b, after: a },
            Event::SizeChanged { display: d2, before: b2, after: a2 },
        ) => d.id == d2.id && b == a2 && a == b2,
        (
            Event::OriginChanged { display: d, before: b, after: a },
            Event::OriginChanged { display: d2, before: b2, after: a2 },
        ) => d.id == d2.id && b == a2 && a == b2,
        (Event::Mirrored(d), Event::UnMirrored(d2)) | (Event::UnMirrored(d), Event::Mirrored(d2)) => {
            d.id == d2.id
        }
        _ => false,
    }
}

#[test]
fn diff_back_undoes_diff_forth_event_by_event() {
    let old = Snapshot::from_records(vec![
        mac(1, 0, 0, 800, 600, true, false),
        mac(2, 800, 0, 800, 600, false, true),
        mac(5, 0, 0, 1, 1, false, false),
        win("\\\\.\\DISPLAY1", 0, 0, 800, 600),
    ]);
    let new = Snapshot::from_records(vec![
        mac(1, 0, 10, 1024, 768, true, true),
        mac(2, 800, 0, 800, 600, false, false),
        mac(3, 0, 0, 1, 1, false, false),
        win("\\\\.\\DISPLAY2", 0, 0, 800, 600),
    ]);
    let forth = diff(&old, &new).into_vec();
    let back = diff(&new, &old).into_vec();
    assert_eq!(forth.len(), 8);
    assert_eq!(forth.len(), back.len());
    for (f, b) in forth.iter().zip(back.iter()) {
        assert!(undoes(f, b), "{:?} against {:?}", f, b);
    }
}

#[test]
fn events_of_one_display_stand_together_and_ids_ascend() {
    let old = Snapshot::from_records(vec![
        mac(3, 0, 0, 800, 600, true, false),
        mac(1, 800, 0, 800, 600, false, false),
        mac(2, 0, 0, 1, 1, false, true),
    ]);
    let new = Snapshot::from_records(vec![
        mac(2, 5, 5, 2, 2, false, false),
        mac(3, 1, 1, 801, 601, true, true),
        mac(1, 801, 1, 801, 601, false, true),
    ]);
    let events = diff(&old, &new).into_vec();
    let ids: Vec<Option<u32>> = events.iter().map(|e| e.id().macos_id()).collect();
    assert_eq!(
        ids,
        vec![Some(1), Some(1), Some(1), Some(2), Some(2), Some(2), Some(3), Some(3), Some(3)]
    );
    for chunk in events.chunks(3) {
        assert!(matches!(chunk[0], Event::SizeChanged { .. }));
        assert!(matches!(chunk[1], Event::OriginChanged { .. }));
    }
    assert!(matches!(events[2], Event::Mirrored(_)));
    assert!(matches!(events[5], Event::UnMirrored(_)));
    assert!(matches!(events[8], Event::Mirrored(_)));
}
