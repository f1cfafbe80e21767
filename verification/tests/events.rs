use atomo_vfs::events::{coalesce, BusAction, BusInput, EventBatch, FULL_BATCH_SIZE, MAX_BATCH_SIZE};
use atomo_vfs::types::{FsEvent, FsEventKind};
use atomo_vfs::VfsUri;

fn uri(s: &str) -> VfsUri {
    VfsUri::parse(s).unwrap()
}

fn event(kind: FsEventKind, s: &str) -> FsEvent {
    FsEvent { kind, uri: uri(s), renamed_to: None }
}

/// Sends the events and lets the window of the batch pass.
fn batches(events: Vec<FsEvent>) -> Vec<Vec<FsEvent>> {
    let mut bus = EventBatch::new();
    let mut out = Vec::new();
    for e in events {
        if let BusAction::Emit(batch) = bus.step(BusInput::Event(e)) {
            out.push(batch);
        }
    }
    if let BusAction::Emit(batch) = bus.step(BusInput::Deadline) {
        out.push(batch);
    }
    out
}

#[test]
fn dedupes_and_batches() {
    let got = batches(vec![
        FsEvent { kind: FsEventKind::Modified, uri: uri("file:///a"), renamed_to: None },
        FsEvent { kind: FsEventKind::Modified, uri: uri("file:///a"), renamed_to: None },
    ]);
    assert_eq!(got.len(), 1);
    assert_eq!(got[0].len(), 1);
}

#[test]
fn created_then_removed_collapses_to_removed() {
    let got = batches(vec![
        FsEvent { kind: FsEventKind::Created, uri: uri("file:///a"), renamed_to: None },
        FsEvent { kind: FsEventKind::Removed, uri: uri("file:///a"), renamed_to: None },
    ]);
    assert_eq!(got[0].len(), 1);
    assert_eq!(got[0][0].kind, FsEventKind::Removed);
}

#[test]
fn order_of_first_occurrence_is_kept() {
    let told = coalesce(vec![
        event(FsEventKind::Created, "mem:///a"),
        event(FsEventKind::Modified, "mem:///b"),
        event(FsEventKind::Created, "mem:///a"),
        event(FsEventKind::Removed, "mem:///a"),
    ]);
    assert_eq!(
        told,
        vec![event(FsEventKind::Modified, "mem:///b"), event(FsEventKind::Removed, "mem:///a")]
    );
}

#[test]
fn a_repeated_removal_is_dropped_before_it_replaces_anything() {
    let told = coalesce(vec![
        event(FsEventKind::Removed, "mem:///a"),
        event(FsEventKind::Created, "mem:///a"),
        event(FsEventKind::Removed, "mem:///a"),
    ]);
    assert_eq!(
        told,
        vec![event(FsEventKind::Removed, "mem:///a"), event(FsEventKind::Created, "mem:///a")]
    );
}

#[test]
fn renames_to_different_places_differ() {
    let rename = |to: &str| FsEvent {
        kind: FsEventKind::Renamed,
        uri: uri("mem:///a"),
        renamed_to: Some(uri(to)),
    };
    let told = coalesce(vec![rename("mem:///b"), rename("mem:///c"), rename("mem:///b")]);
    assert_eq!(told, vec![rename("mem:///b"), rename("mem:///c")]);
}

#[test]
fn many_events_are_told_by_directory() {
    let mut events = Vec::new();
    for i in 0..MAX_BATCH_SIZE {
        events.push(event(FsEventKind::Modified, &format!("mem:///d/{i}")));
    }
    assert_eq!(coalesce(events.clone()).len(), MAX_BATCH_SIZE);
    events.push(event(FsEventKind::Modified, "mem:///"));
    events.push(event(FsEventKind::Modified, "mem:///e/x"));
    assert_eq!(
        coalesce(events),
        vec![
            event(FsEventKind::Overflow, "mem:///d"),
            event(FsEventKind::Overflow, "mem:///"),
            event(FsEventKind::Overflow, "mem:///e"),
        ]
    );
}

#[test]
fn directories_that_do_not_fit_are_folded() {
    let mut events = Vec::new();
    for i in 0..MAX_BATCH_SIZE {
        events.push(event(FsEventKind::Modified, &format!("mem:///p/{i}/f")));
    }
    events.push(event(FsEventKind::Modified, "mem:///p/0/g"));
    let told = coalesce(events.clone());
    assert_eq!(told.len(), MAX_BATCH_SIZE);
    assert_eq!(told[0], event(FsEventKind::Overflow, "mem:///p/0"));
    events.push(event(FsEventKind::Modified, "mem:///q/f"));
    assert_eq!(
        coalesce(events),
        vec![event(FsEventKind::Overflow, "mem:///p"), event(FsEventKind::Overflow, "mem:///q")]
    );
}

#[test]
fn only_the_deepest_directories_are_folded() {
    let mut events = Vec::new();
    for i in 0..400 {
        events.push(event(FsEventKind::Modified, &format!("mem:///p/{i}/f")));
    }
    for i in 0..200 {
        events.push(event(FsEventKind::Modified, &format!("mem:///q{i}/f")));
    }
    let told = coalesce(events);
    assert_eq!(told.len(), 201);
    assert_eq!(told[0], event(FsEventKind::Overflow, "mem:///p"));
    assert_eq!(told[200], event(FsEventKind::Overflow, "mem:///q199"));
}

#[test]
fn roots_that_do_not_fit_are_left_out() {
    let mut events = Vec::new();
    for i in 0..501 {
        events.push(event(FsEventKind::Modified, &format!("mem://h{i}/d/f")));
    }
    let told = coalesce(events);
    assert_eq!(told.len(), MAX_BATCH_SIZE);
    assert_eq!(told[0], event(FsEventKind::Overflow, "mem://h0/"));
    assert_eq!(told[499], event(FsEventKind::Overflow, "mem://h499/"));
}

#[test]
fn a_full_batch_is_closed_before_its_time() {
    let mut bus = EventBatch::new();
    assert!(matches!(
        bus.step(BusInput::Event(event(FsEventKind::Modified, "mem:///a/0"))),
        BusAction::OpenWindow
    ));
    for i in 1..FULL_BATCH_SIZE - 1 {
        let e = event(FsEventKind::Modified, &format!("mem:///a/{i}"));
        assert!(matches!(bus.step(BusInput::Event(e)), BusAction::Wait));
    }
    match bus.step(BusInput::Event(event(FsEventKind::Modified, "mem:///a/last"))) {
        BusAction::Emit(told) => assert_eq!(told, vec![event(FsEventKind::Overflow, "mem:///a")]),
        other => panic!("unexpected {other:?}"),
    }
    assert!(matches!(
        bus.step(BusInput::Event(event(FsEventKind::Modified, "mem:///b"))),
        BusAction::OpenWindow
    ));
}

#[test]
fn closing_flushes_and_then_stops() {
    let mut bus = EventBatch::new();
    bus.step(BusInput::Event(event(FsEventKind::Created, "mem:///a")));
    assert!(matches!(bus.step(BusInput::Closed), BusAction::Emit(told) if told.len() == 1));
    assert!(matches!(bus.step(BusInput::Closed), BusAction::Stop));
    assert!(matches!(bus.step(BusInput::Deadline), BusAction::Wait));
}

#[test]
fn coalescing_twice_changes_nothing() {
    let mut events = vec![
        event(FsEventKind::Removed, "mem:///a"),
        event(FsEventKind::Created, "mem:///a"),
        event(FsEventKind::Removed, "mem:///a"),
        event(FsEventKind::Created, "mem:///b"),
        event(FsEventKind::Removed, "mem:///b"),
    ];
    let told = coalesce(events.clone());
    assert_eq!(told.len(), 3);
    assert_eq!(coalesce(told.clone()), told);
    for i in 0..600 {
        events.push(event(FsEventKind::Modified, &format!("mem:///{i}/f")));
    }
    let told = coalesce(events);
    assert_eq!(coalesce(told.clone()), told);
}
