use rye::watcher::{coalesce, merge_kinds, AssetEventKind, RawEvent};

#[test]
fn merge_created_modified_stays_created() {
    assert_eq!(
        merge_kinds(AssetEventKind::Created, AssetEventKind::Modified),
        AssetEventKind::Created
    );
    assert_eq!(
        merge_kinds(AssetEventKind::Modified, AssetEventKind::Created),
        AssetEventKind::Created
    );
}

#[test]
fn merge_removed_wins_over_earlier_events() {
    assert_eq!(
        merge_kinds(AssetEventKind::Created, AssetEventKind::Removed),
        AssetEventKind::Removed
    );
    assert_eq!(
        merge_kinds(AssetEventKind::Modified, AssetEventKind::Removed),
        AssetEventKind::Removed
    );
}

#[test]
fn merge_create_after_remove_wins() {
    assert_eq!(
        merge_kinds(AssetEventKind::Removed, AssetEventKind::Created),
        AssetEventKind::Created
    );
}

fn raw(kind: Option<AssetEventKind>, paths: &[&str]) -> RawEvent {
    RawEvent { kind, paths: paths.iter().map(|p| p.to_string()).collect() }
}

#[test]
fn a_burst_becomes_one_event_per_path() {
    let events = vec![
        raw(Some(AssetEventKind::Created), &["b.wgsl"]),
        raw(Some(AssetEventKind::Modified), &["b.wgsl", "a.wgsl"]),
        raw(None, &["c.wgsl"]),
        raw(Some(AssetEventKind::Modified), &["b.wgsl"]),
    ];
    let mut out: Vec<(String, AssetEventKind)> =
        coalesce(&events).into_iter().map(|e| (e.path, e.kind)).collect();
    out.sort_by(|x, y| x.0.cmp(&y.0));
    assert_eq!(
        out,
        vec![
            ("a.wgsl".to_string(), AssetEventKind::Modified),
            ("b.wgsl".to_string(), AssetEventKind::Created),
        ]
    );
    assert!(coalesce(&vec![]).is_empty());
}
