use biliup_core::actor::{DownloadActor, TaskCommand};
use biliup_core::status::StreamStatus;

#[test]
fn scenario_single_source_goes_live() {
    let mut actor = DownloadActor::new();
    assert!(!actor.has_platform(1));
    let cmd = actor.add_streamer(Some(1), "https://p1/a".to_string());
    assert_eq!(cmd, TaskCommand::Spawn(1));
    assert!(actor.has_platform(1));
    assert_eq!(actor.source_count(1), 1);
    assert_eq!(actor.status(1, "https://p1/a"), Some(StreamStatus::Idle));

    let mut cursor: usize = 0;
    let (url, status) = actor.next_source(1, &mut cursor).unwrap();
    assert_eq!(url, "https://p1/a");
    assert_eq!(status, StreamStatus::Idle);
    assert_eq!(cursor, 1);

    assert!(actor.record_probe(1, "https://p1/a", true));
    assert_eq!(actor.status(1, "https://p1/a"), Some(StreamStatus::Downloading));
    assert!(!actor.record_probe(1, "https://p1/a", true));
    assert_eq!(actor.status(1, "https://p1/a"), Some(StreamStatus::Downloading));
}

#[test]
fn scenario_shared_platform_lifecycle() {
    let mut actor = DownloadActor::new();
    assert_eq!(actor.add_streamer(Some(1), "https://p1/a".to_string()), TaskCommand::Spawn(1));
    assert_eq!(actor.add_streamer(Some(1), "https://p1/b".to_string()), TaskCommand::Nothing);
    assert_eq!(actor.source_count(1), 2);

    let mut cursor: usize = 0;
    let first = actor.next_source(1, &mut cursor).unwrap().0;
    let second = actor.next_source(1, &mut cursor).unwrap().0;
    let third = actor.next_source(1, &mut cursor).unwrap().0;
    assert_eq!(first, "https://p1/a");
    assert_eq!(second, "https://p1/b");
    assert_eq!(third, "https://p1/a");

    assert_eq!(actor.remove_streamer(Some(1), "https://p1/a"), TaskCommand::Nothing);
    assert_eq!(actor.source_count(1), 1);
    assert!(actor.has_platform(1));

    assert_eq!(actor.remove_streamer(Some(1), "https://p1/b"), TaskCommand::Abort(1));
    assert!(!actor.has_platform(1));
    assert_eq!(actor.source_count(1), 0);
}

#[test]
fn removing_only_source_aborts_only_that_platform() {
    let mut actor = DownloadActor::new();
    actor.add_streamer(Some(1), "https://p1/a".to_string());
    actor.add_streamer(Some(2), "https://p2/b".to_string());
    assert_eq!(actor.remove_streamer(Some(1), "https://p1/a"), TaskCommand::Abort(1));
    assert!(!actor.has_platform(1));
    assert!(actor.has_platform(2));
    assert_eq!(actor.status(2, "https://p2/b"), Some(StreamStatus::Idle));
}

#[test]
fn removing_unknown_source_keeps_task() {
    let mut actor = DownloadActor::new();
    actor.add_streamer(Some(1), "https://p1/a".to_string());
    assert_eq!(actor.remove_streamer(Some(1), "https://p1/zzz"), TaskCommand::Nothing);
    assert!(actor.has_platform(1));
    assert_eq!(actor.remove_streamer(Some(3), "https://p3/a"), TaskCommand::Nothing);
}

#[test]
fn live_tasks_equal_platforms_over_operations() {
    let mut actor = DownloadActor::new();
    let mut live: i64 = 0;
    let ops: Vec<(bool, u64, &str)> = vec![
        (true, 1, "a"),
        (true, 2, "b"),
        (true, 1, "c"),
        (false, 1, "a"),
        (true, 3, "d"),
        (false, 2, "b"),
        (false, 2, "b"),
        (true, 2, "e"),
        (false, 1, "c"),
        (false, 3, "d"),
        (true, 3, "d"),
    ];
    for (add, p, url) in ops {
        let cmd = if add {
            actor.add_streamer(Some(p), url.to_string())
        } else {
            actor.remove_streamer(Some(p), url)
        };
        match cmd {
            TaskCommand::Spawn(_) => live += 1,
            TaskCommand::Abort(_) => live -= 1,
            TaskCommand::Nothing => {}
        }
        let platforms = (1..=3u64).filter(|q| actor.source_count(*q) > 0).count() as i64;
        assert_eq!(live, platforms);
    }
    assert_eq!(live, 2);
}

#[test]
fn unsupported_source_is_ignored() {
    let mut actor = DownloadActor::new();
    assert_eq!(actor.add_streamer(None, "ftp://nowhere".to_string()), TaskCommand::Nothing);
    assert_eq!(actor.remove_streamer(None, "ftp://nowhere"), TaskCommand::Nothing);
    assert!(!actor.has_platform(0));
}

#[test]
fn adding_twice_gives_one_entry() {
    let mut actor = DownloadActor::new();
    assert_eq!(actor.add_streamer(Some(1), "https://p1/a".to_string()), TaskCommand::Spawn(1));
    assert_eq!(actor.add_streamer(Some(1), "https://p1/a".to_string()), TaskCommand::Nothing);
    assert_eq!(actor.source_count(1), 1);
    assert_eq!(actor.status(1, "https://p1/a"), Some(StreamStatus::Idle));
}

#[test]
fn adding_again_keeps_a_live_source() {
    let mut actor = DownloadActor::new();
    actor.add_streamer(Some(1), "https://p1/a".to_string());
    actor.add_streamer(Some(1), "https://p1/b".to_string());
    assert!(actor.record_probe(1, "https://p1/a", true));
    assert_eq!(actor.add_streamer(Some(1), "https://p1/a".to_string()), TaskCommand::Nothing);
    assert_eq!(actor.source_count(1), 2);
    assert_eq!(actor.status(1, "https://p1/a"), Some(StreamStatus::Downloading));
    assert!(!actor.record_probe(1, "https://p1/a", true));
    let mut cursor: usize = 0;
    assert_eq!(actor.next_source(1, &mut cursor).unwrap().0, "https://p1/a");
    assert_eq!(actor.next_source(1, &mut cursor).unwrap().0, "https://p1/b");
}

#[test]
fn offline_probe_leaves_idle() {
    let mut actor = DownloadActor::new();
    actor.add_streamer(Some(1), "https://p1/a".to_string());
    assert!(!actor.record_probe(1, "https://p1/a", false));
    assert_eq!(actor.status(1, "https://p1/a"), Some(StreamStatus::Idle));
    assert!(!actor.record_probe(1, "https://p1/gone", true));
    assert!(!actor.record_probe(9, "https://p1/a", true));
}

#[test]
fn next_source_on_unknown_platform() {
    let actor = DownloadActor::new();
    let mut cursor: usize = 5;
    assert!(actor.next_source(1, &mut cursor).is_none());
    assert_eq!(cursor, 5);
}

#[test]
fn run_seeds_registry() {
    let mut actor = DownloadActor::new();
    let list = vec![
        (None, "ftp://x".to_string()),
        (Some(1), "https://p1/a".to_string()),
        (Some(1), "https://p1/b".to_string()),
        (Some(2), "https://p2/c".to_string()),
    ];
    let spawned = actor.run(list);
    assert_eq!(spawned, vec![1, 2]);
    assert_eq!(actor.source_count(1), 2);
    assert_eq!(actor.source_count(2), 1);
}

#[test]
fn status_never_reverts_without_removal() {
    let mut actor = DownloadActor::new();
    actor.add_streamer(Some(1), "https://p1/a".to_string());
    actor.add_streamer(Some(1), "https://p1/b".to_string());
    assert!(actor.record_probe(1, "https://p1/a", true));
    assert!(!actor.record_probe(1, "https://p1/a", false));
    actor.add_streamer(Some(1), "https://p1/c".to_string());
    actor.remove_streamer(Some(1), "https://p1/b");
    actor.add_streamer(Some(2), "https://p2/a".to_string());
    assert!(actor.record_probe(1, "https://p1/c", true));
    assert_eq!(actor.status(1, "https://p1/a"), Some(StreamStatus::Downloading));
    assert_eq!(actor.status(1, "https://p1/c"), Some(StreamStatus::Downloading));
    actor.remove_streamer(Some(1), "https://p1/a");
    assert_eq!(actor.status(1, "https://p1/a"), None);
}
