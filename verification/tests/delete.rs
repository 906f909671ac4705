use forest_ear_bot::delete::{
    DeleteAction, DeleteEvent, DeleteFlow, UndeleteAction, UndeleteEvent, UndeleteFlow, DELETED_NOTE,
};
use forest_ear_bot::saves::{EmbedInfo, BACKUP_MARKER};

/// Runs a delete of `Game/Saved` in a pretend world and returns the actions
/// taken, as text.
fn run_delete(shortcut: bool, locked: Option<&str>, holder: Option<&str>, description: Option<&str>) -> Vec<String> {
    let (mut flow, mut action) = DeleteFlow::start("Game/Saved", description);
    let mut log = Vec::new();
    loop {
        let event = match action {
            DeleteAction::Refuse(m) => {
                log.push(format!("refuse {}", m));
                return log;
            },
            DeleteAction::Finish(m) => {
                log.push(format!("finish {}", m));
                return log;
            },
            DeleteAction::Fail(e) => {
                log.push(format!("fail {}", e));
                return log;
            },
            DeleteAction::CheckShortcut(p) => {
                log.push(format!("shortcut? {}", p));
                DeleteEvent::Shortcut(Ok(shortcut))
            },
            DeleteAction::Resolve(p) => {
                log.push(format!("resolve {}", p));
                DeleteEvent::Resolved(Ok("/saves/Game/Saved".to_string()))
            },
            DeleteAction::FindGameDir(p) => {
                log.push(format!("game dir of {}", p));
                DeleteEvent::GameDir(Some("/saves/Game".to_string()))
            },
            DeleteAction::FindLocked(t) => {
                log.push(format!("locked? {}", t));
                DeleteEvent::Locked(locked.map(|l| l.to_string()))
            },
            DeleteAction::FindHolder(g) => {
                log.push(format!("holder? {}", g));
                DeleteEvent::Holder(holder.map(|h| h.to_string()))
            },
            DeleteAction::PostCopy { path, target, description } => {
                log.push(format!("copy {} from {} ({})", path, target, description));
                DeleteEvent::Posted(Ok(()))
            },
            DeleteAction::Remove { target, game_dir } => {
                log.push(format!("remove {} in {:?}", target, game_dir));
                DeleteEvent::Removed(Ok(()))
            },
        };
        assert!(flow.expects(&event));
        action = flow.advance(event);
    }
}

#[test]
fn delete_uploads_before_removing() {
    assert_eq!(
        run_delete(false, None, None, None),
        [
            "shortcut? Game/Saved".to_string(),
            "resolve Game/Saved".to_string(),
            "game dir of Game/Saved".to_string(),
            "locked? /saves/Game/Saved".to_string(),
            format!("copy Game/Saved from /saves/Game/Saved ({})", DELETED_NOTE),
            "remove /saves/Game/Saved in Some(\"/saves/Game\")".to_string(),
            "finish Deleted folder `Game/Saved`.".to_string(),
        ]
    );
    let noted = run_delete(false, None, None, Some("old world"));
    assert!(noted.contains(&"copy Game/Saved from /saves/Game/Saved (old world)".to_string()));
}

#[test]
fn delete_refuses_a_shortcut() {
    let log = run_delete(true, None, None, None);
    assert_eq!(log.len(), 2);
    assert_eq!(
        log[1],
        "refuse `Game/Saved` is a shortcut. Deleting it would remove everything it points at, not the shortcut itself \u{2014} refusing. Delete something inside it instead, like `Game/Saved/<folder>`."
    );
}

#[test]
fn delete_refuses_while_a_file_is_held() {
    let log = run_delete(false, Some("/saves/Game/Saved/level.sav"), Some("PalServer.exe (pid 42)"), None);
    assert_eq!(
        log.last().unwrap(),
        "refuse `Game/Saved` can't be deleted right now: `/saves/Game/Saved/level.sav` is open in another process, so Windows will refuse to remove it. `PalServer.exe (pid 42)` is the likely holder. Stop the game server and try again \u{2014} nothing has been backed up or deleted."
    );
    assert!(!log.iter().any(|a| a.starts_with("copy") || a.starts_with("remove")));
    let nobody = run_delete(false, Some("/x"), None, None);
    assert!(nobody.last().unwrap().ends_with("remove it. Stop the game server and try again \u{2014} nothing has been backed up or deleted."));
}

#[test]
fn a_failed_upload_deletes_nothing() {
    let (mut flow, _) = DeleteFlow::start("G", None);
    let _ = flow.advance(DeleteEvent::Shortcut(Ok(false)));
    let _ = flow.advance(DeleteEvent::Resolved(Ok("/s/G".to_string())));
    let _ = flow.advance(DeleteEvent::GameDir(None));
    let _ = flow.advance(DeleteEvent::Locked(None));
    match flow.advance(DeleteEvent::Posted(Err("too large".to_string()))) {
        DeleteAction::Fail(e) => assert_eq!(e, "too large"),
        _ => panic!("expected a failure"),
    }
    assert!(!flow.expects(&DeleteEvent::Removed(Ok(()))));
}

fn backup_message(path: &str) -> Vec<EmbedInfo> {
    vec![EmbedInfo { footer: Some(BACKUP_MARKER.to_string()), fields: vec![("path".to_string(), path.to_string())] }]
}

#[test]
fn undelete_refuses_to_overwrite() {
    let (mut flow, action) = UndeleteFlow::start(&backup_message("Game/Saved"), 1);
    assert!(matches!(action, UndeleteAction::ResolveNew(ref p) if p == "Game/Saved"));
    assert!(matches!(flow.advance(UndeleteEvent::Resolved(Ok("/s/Game/Saved".to_string()))), UndeleteAction::CheckExists(ref t) if t == "/s/Game/Saved"));
    match flow.advance(UndeleteEvent::Exists(true)) {
        UndeleteAction::Refuse(m) => assert_eq!(
            m,
            "`Game/Saved` already exists \u{2014} refusing to overwrite it. Use the Restore action instead; it takes a backup of the current contents first."
        ),
        _ => panic!("expected a refusal"),
    }
    assert!(!flow.expects(&UndeleteEvent::Downloaded(Ok(()))));
}

#[test]
fn undelete_puts_a_missing_folder_back() {
    let (mut flow, _) = UndeleteFlow::start(&backup_message("Game/Saved"), 1);
    let _ = flow.advance(UndeleteEvent::Resolved(Ok("/s/Game/Saved".to_string())));
    assert!(matches!(flow.advance(UndeleteEvent::Exists(false)), UndeleteAction::Download));
    assert!(matches!(flow.advance(UndeleteEvent::Downloaded(Ok(()))), UndeleteAction::Unpack(ref t) if t == "/s/Game/Saved"));
    assert!(matches!(flow.advance(UndeleteEvent::Unpacked(Ok(()))), UndeleteAction::Finish(ref m) if m == "Undeleted folder `Game/Saved`."));
    let (_, foreign) = UndeleteFlow::start(&Vec::new(), 1);
    assert!(matches!(foreign, UndeleteAction::Refuse(ref m) if m.ends_with("undelete only works on messages this bot posted.")));
    let (_, two) = UndeleteFlow::start(&backup_message("G"), 2);
    assert!(matches!(two, UndeleteAction::Refuse(ref m) if m == "Expecting exactly one attachment"));
}
