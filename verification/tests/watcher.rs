use claudedeck::file_monitor::{filter_notification, ChangeKind, RawEventKind};

fn paths(v: &[&str]) -> Vec<String> {
    v.iter().map(|s| s.to_string()).collect()
}

#[test]
fn one_event_for_one_matching_path() {
    let events = filter_notification(&RawEventKind::Create, &paths(&["/logs/a.jsonl"]));
    assert_eq!(events.len(), 1);
    assert_eq!(events[0].path, "/logs/a.jsonl");
    assert_eq!(events[0].kind, ChangeKind::Created);
}

#[test]
fn no_event_for_non_matching_extension() {
    let events = filter_notification(&RawEventKind::Modify, &paths(&["/logs/a.txt"]));
    assert!(events.is_empty());
}

#[test]
fn no_event_for_other_notification_kinds() {
    let events = filter_notification(&RawEventKind::Other, &paths(&["/logs/a.jsonl"]));
    assert!(events.is_empty());
}

#[test]
fn kinds_map_to_created_modified_removed() {
    let p = paths(&["/x.jsonl"]);
    assert_eq!(filter_notification(&RawEventKind::Create, &p)[0].kind, ChangeKind::Created);
    assert_eq!(filter_notification(&RawEventKind::Modify, &p)[0].kind, ChangeKind::Modified);
    assert_eq!(filter_notification(&RawEventKind::Remove, &p)[0].kind, ChangeKind::Removed);
}

#[test]
fn mixed_paths_keep_only_matching_in_order() {
    let events = filter_notification(
        &RawEventKind::Remove,
        &paths(&["/a.jsonl", "/b.txt", "/c.jsonl", "/d.json"]),
    );
    let got: Vec<String> = events.iter().map(|e| e.path.clone()).collect();
    assert_eq!(got, paths(&["/a.jsonl", "/c.jsonl"]));
    assert!(events.iter().all(|e| e.kind == ChangeKind::Removed));
}

#[test]
fn kind_labels_match_the_wire_form() {
    assert_eq!(ChangeKind::Created.label(), "created");
    assert_eq!(ChangeKind::Modified.label(), "modified");
    assert_eq!(ChangeKind::Removed.label(), "removed");
}
