use rye::harness::{frame_path, CursorKey, CursorTrack, OfflinePlan, OfflineStep};

fn key(time: i32, position: Option<(i32, i32)>) -> CursorKey<(i32, i32)> {
    CursorKey { time, position }
}

#[test]
fn the_last_key_at_or_before_holds() {
    let track = CursorTrack::new(vec![key(20, None), key(10, Some((1, 2)))]);
    assert_eq!(track.sample(9), None);
    assert_eq!(track.sample(10), Some((1, 2)));
    assert_eq!(track.sample(19), Some((1, 2)));
    assert_eq!(track.sample(20), None);
    let empty: CursorTrack<(i32, i32)> = CursorTrack::new(vec![]);
    assert_eq!(empty.sample(0), None);
}

#[test]
fn frames_replay_the_timeline() {
    let mut plan = OfflinePlan::new(1, 2);
    let mut steps = Vec::new();
    while let Some(s) = plan.next_step() {
        steps.push(s);
    }
    assert_eq!(
        steps,
        vec![
            OfflineStep::DriveUi,
            OfflineStep::Advance,
            OfflineStep::DriveUi,
            OfflineStep::Render { frame: 0 },
            OfflineStep::Advance,
            OfflineStep::DriveUi,
            OfflineStep::Render { frame: 1 },
        ]
    );
    assert_eq!(plan.next_step(), None);
}

#[test]
fn frame_files() {
    assert_eq!(frame_path("out", 3, 5), "out/frame_0003.png");
    assert_eq!(frame_path("shot.PNG", 0, 1), "shot.PNG");
    assert_eq!(frame_path("shot.png", 0, 2), "shot.png/frame_0000.png");
    assert_eq!(frame_path(".png", 0, 1), ".png/frame_0000.png");
    assert_eq!(frame_path("out/", 12345, 20000), "out/frame_12345.png");
}
