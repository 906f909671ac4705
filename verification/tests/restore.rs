use forest_ear_bot::restore::{RestoreAction, RestoreEvent, RestoreFlow};
use forest_ear_bot::saves::{backup_post, EmbedInfo, BACKUP_MARKER, PRE_RESTORE_NOTE, PRE_RESTORE_TITLE};

fn backup_message(path: &str) -> Vec<EmbedInfo> {
    vec![EmbedInfo {
        footer: Some(BACKUP_MARKER.to_string()),
        fields: vec![("path".to_string(), path.to_string()), ("size".to_string(), "0.01 MB".to_string())],
    }]
}

/// How each step of a pretend restore goes.
struct World {
    empty: bool,
    copy: Result<(), &'static str>,
    clear: bool,
    unpack: Result<(), &'static str>,
    move_in: Result<(), &'static str>,
}

const FINE: World = World { empty: false, copy: Ok(()), clear: true, unpack: Ok(()), move_in: Ok(()) };

/// Runs a restore of a backup of `Game/Saved` in `world` and returns the
/// actions taken, as text.
fn run(world: World) -> Vec<String> {
    let (mut flow, mut action) = RestoreFlow::start(&backup_message("Game/Saved"), 1);
    let mut log = Vec::new();
    loop {
        let event = match action {
            RestoreAction::Refuse(m) => {
                log.push(format!("refuse {}", m));
                return log;
            },
            RestoreAction::Finish(m) => {
                log.push(format!("finish {}", m));
                return log;
            },
            RestoreAction::Fail(e) => {
                log.push(format!("fail {}", e));
                return log;
            },
            RestoreAction::Resolve(p) => {
                log.push(format!("resolve {}", p));
                RestoreEvent::Resolved(Ok("/s/G".to_string()))
            },
            RestoreAction::Download => {
                log.push("download".to_string());
                RestoreEvent::Downloaded(Ok(()))
            },
            RestoreAction::CheckEmpty(t) => {
                log.push(format!("check {}", t));
                RestoreEvent::Emptiness(Ok(world.empty))
            },
            RestoreAction::Notify(m) => {
                log.push(format!("notify {}", m));
                RestoreEvent::Notified(Ok(()))
            },
            RestoreAction::PostCopy { path, target } => {
                log.push(format!("copy {} from {}", path, target));
                RestoreEvent::Posted(world.copy.map_err(|e| e.to_string()))
            },
            RestoreAction::CheckClear { staging, aside } => {
                log.push(format!("clear? {} {}", staging, aside));
                RestoreEvent::Clear(world.clear)
            },
            RestoreAction::Unpack(st) => {
                log.push(format!("unpack {}", st));
                RestoreEvent::Unpacked(world.unpack.map_err(|e| e.to_string()))
            },
            RestoreAction::MoveAside { target, aside } => {
                log.push(format!("move {} to {}", target, aside));
                RestoreEvent::MovedAside(Ok(()))
            },
            RestoreAction::MoveIn { staging, target } => {
                log.push(format!("move {} to {}", staging, target));
                RestoreEvent::MovedIn(world.move_in.map_err(|e| e.to_string()))
            },
            RestoreAction::MoveBack { aside, target } => {
                log.push(format!("move back {} to {}", aside, target));
                RestoreEvent::MovedBack(Ok(()))
            },
            RestoreAction::Discard(f) => {
                log.push(format!("discard {}", f));
                RestoreEvent::Discarded(Ok(()))
            },
        };
        assert!(flow.expects(&event));
        action = flow.advance(event);
    }
}

#[test]
fn restore_copies_the_folder_before_replacing_it() {
    assert_eq!(
        run(FINE),
        [
            "resolve Game/Saved",
            "download",
            "check /s/G",
            "copy Game/Saved from /s/G",
            "clear? /s/G.forest-ear-restore /s/G.forest-ear-previous",
            "unpack /s/G.forest-ear-restore",
            "move /s/G to /s/G.forest-ear-previous",
            "move /s/G.forest-ear-restore to /s/G",
            "discard /s/G.forest-ear-previous",
            "finish Restored `Game/Saved`.",
        ]
    );
}

#[test]
fn an_empty_folder_is_replaced_after_saying_so() {
    let log = run(World { empty: true, ..FINE });
    assert_eq!(log[3], "notify `Game/Saved` is empty, nothing to save first.");
    assert_eq!(log.last().unwrap(), "finish Restored `Game/Saved`.");
    assert!(!log.iter().any(|a| a.starts_with("copy")));
}

#[test]
fn a_failed_safety_copy_leaves_the_folder_alone() {
    let log = run(World { copy: Err("Upload of `Game/Saved` (0.0 MB) failed: too large"), ..FINE });
    assert_eq!(log.last().unwrap(), "fail Upload of `Game/Saved` (0.0 MB) failed: too large");
    assert!(!log.iter().any(|a| a.starts_with("unpack") || a.starts_with("move")));
}

#[test]
fn a_broken_archive_leaves_the_folder_alone() {
    let log = run(World { unpack: Err("invalid Zip archive"), ..FINE });
    assert_eq!(&log[log.len() - 2..], ["discard /s/G.forest-ear-restore", "fail invalid Zip archive"]);
    assert!(!log.iter().any(|a| a.starts_with("move")));
}

#[test]
fn a_failed_move_in_puts_the_folder_back() {
    let log = run(World { move_in: Err("Access is denied. (os error 5)"), ..FINE });
    assert_eq!(
        &log[log.len() - 4..],
        [
            "move /s/G.forest-ear-restore to /s/G",
            "move back /s/G.forest-ear-previous to /s/G",
            "discard /s/G.forest-ear-restore",
            "fail Access is denied. (os error 5)",
        ]
    );
}

#[test]
fn helper_folders_in_the_way_stop_the_restore() {
    let log = run(World { clear: false, ..FINE });
    assert_eq!(
        log.last().unwrap(),
        "fail Cannot restore: `/s/G.forest-ear-restore` or `/s/G.forest-ear-previous` already exists. Move it away and try again."
    );
    assert!(!log.iter().any(|a| a.starts_with("unpack") || a.starts_with("move")));
}

#[test]
fn restore_refuses_a_message_it_did_not_post() {
    let (_, action) = RestoreFlow::start(&Vec::new(), 1);
    match action {
        RestoreAction::Refuse(m) => assert_eq!(
            m,
            "That isn't a backup message from this bot \u{2014} restore only works on messages `/backup` posted."
        ),
        _ => panic!("expected a refusal"),
    }
    let (flow, action) = RestoreFlow::start(&backup_message("G"), 0);
    assert!(matches!(action, RestoreAction::Refuse(ref m) if m == "Expecting exactly one attachment"));
    assert!(!flow.expects(&RestoreEvent::Resolved(Ok("/x".to_string()))));
}

#[test]
fn a_failed_download_is_reported_and_stops() {
    let (mut flow, _) = RestoreFlow::start(&backup_message("G"), 1);
    let _ = flow.advance(RestoreEvent::Resolved(Ok("/saves/G".to_string())));
    match flow.advance(RestoreEvent::Downloaded(Err("timed out".to_string()))) {
        RestoreAction::Fail(e) => assert_eq!(e, "Error downloading attachment: timed out"),
        _ => panic!("expected a failure"),
    }
    assert!(!flow.expects(&RestoreEvent::Emptiness(Ok(true))));
}

#[test]
fn the_safety_copy_is_itself_restorable() {
    // The restore posts the live folder before moving it aside, and that
    // safety copy is itself a backup message that a later restore accepts.
    let log = run(FINE);
    let copy = log.iter().position(|a| a.starts_with("copy")).unwrap();
    let aside = log.iter().position(|a| a.starts_with("move /s/G to")).unwrap();
    assert!(copy < aside);
    let post = backup_post("Game/Saved", PRE_RESTORE_TITLE, Some(PRE_RESTORE_NOTE), 4096, "20260726-143200");
    let posted = vec![EmbedInfo {
        footer: Some(post.footer.to_string()),
        fields: post.fields.iter().map(|f| (f.name.to_string(), f.value.clone())).collect(),
    }];
    let (_, undo) = RestoreFlow::start(&posted, 1);
    assert!(matches!(undo, RestoreAction::Resolve(ref p) if p == "Game/Saved"));
}
