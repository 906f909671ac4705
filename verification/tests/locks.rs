use forest_ear_bot::locks::{probe_name, rename_probe_needed};
use forest_ear_bot::locks::{
    describe, diagnose, first_locked, locked_paths, process_under, relative, Findings, Metadata,
    Probe, ProcessInfo, RenameOutcome, MAX_MESSAGE, MAX_PROBE,
};

#[test]
fn locked_paths_is_bounded_and_safe() {
    let mut walk = locked_paths("/tmp/probe.sav".to_string(), 0, true);
    assert!(walk.next_path().is_none());
    assert!(walk.into_found().is_empty());
    let mut off_windows = first_locked("/tmp/probe.sav".to_string(), false);
    assert!(off_windows.next_path().is_none());
    assert!(off_windows.first().is_none());
}

/// Drives a walk over a pretend tree: folders map to entries, and files whose
/// name starts with `held` are locked.
fn walk(tree: &[(&str, &[&str])], target: &str, limit: usize) -> (Vec<String>, usize) {
    let mut w = locked_paths(target.to_string(), limit, true);
    let mut probes = 0;
    while let Some(p) = w.next_path() {
        probes += 1;
        let probe = match tree.iter().find(|(d, _)| *d == p) {
            Some((_, entries)) => Probe::Directory(Some(entries.iter().map(|e| e.to_string()).collect())),
            None => Probe::File(p.rsplit('/').next().unwrap().starts_with("held")),
        };
        w.record(probe);
    }
    (w.into_found(), probes)
}

#[test]
fn walk_finds_held_files_depth_first() {
    let tree: &[(&str, &[&str])] = &[
        ("/g", &["/g/a", "/g/held1", "/g/sub"]),
        ("/g/sub", &["/g/sub/held2", "/g/sub/b"]),
    ];
    let (found, probes) = walk(tree, "/g", 5);
    assert_eq!(found, ["/g/sub/held2", "/g/held1"]);
    assert_eq!(probes, 6);
    let (first, _) = walk(tree, "/g", 1);
    assert_eq!(first, ["/g/sub/held2"]);
}

#[test]
fn walk_gives_up_after_the_probe_limit() {
    let entries: Vec<String> = (0..5000).map(|i| format!("/big/f{}", i)).collect();
    let refs: Vec<&str> = entries.iter().map(|s| s.as_str()).collect();
    let tree: &[(&str, &[&str])] = &[("/big", &refs)];
    let (found, probes) = walk(tree, "/big", 5);
    assert!(found.is_empty());
    assert_eq!(probes, MAX_PROBE);
}

#[test]
fn diagnosis_keeps_the_raw_error() {
    let report = diagnose(
        "/tmp/diagnose.sav",
        "Access is denied. (os error 5)",
        Some(5),
        Findings::Unlocked(RenameOutcome::Allowed),
        &Metadata::Present { symlink: false, dir: false, len: 8, readonly: false, attributes: None },
        false,
    );
    assert!(report.contains("os error 5"), "unexpected report: {}", report);
    assert!(report.contains("/tmp/diagnose.sav"), "should name the path: {}", report);
    assert!(report.ends_with("\n\nDetails: os error 5; file, 8 bytes"), "unexpected report: {}", report);
}

#[test]
fn diagnosis_survives_a_vanished_path() {
    let report = diagnose(
        "/tmp/forest_bot_locks_definitely_not_here",
        "Access is denied. (os error 5)",
        Some(5),
        Findings::Unlocked(RenameOutcome::Refused("No such file or directory (os error 2)".to_string())),
        &Metadata::Missing("No such file or directory (os error 2)".to_string()),
        false,
    );
    assert!(report.contains("no metadata"), "unexpected report: {}", report);
    assert!(report.contains("renaming it is refused too (No such file"), "unexpected report: {}", report);
}

#[test]
fn lock_reports_name_the_holder_and_the_files() {
    let report = diagnose(
        "C:\\Games\\Pal\\Saved",
        "Access is denied. (os error 5)",
        Some(5),
        Findings::Locked {
            paths: vec!["C:\\Games\\Pal\\Saved\\level.sav".to_string(), "C:\\Games\\Pal\\Saved\\a\\b.sav".to_string()],
            holder: Some("PalServer.exe (pid 42)".to_string()),
        },
        &Metadata::Present { symlink: false, dir: true, len: 0, readonly: true, attributes: Some(0x10) },
        true,
    );
    assert_eq!(
        report,
        "Could not delete C:\\Games\\Pal\\Saved: Access is denied. (os error 5)\n\nAnother process is holding 2 files under it open without permitting deletes, which is what Windows reports as \"Access is denied\". This is a lock, not a permissions problem.\n\nHeld open:\n- `level.sav`\n- `a\\b.sav`\n\n`PalServer.exe (pid 42)` is running out of the game folder and is the likely holder. Stop it and try again.\n\nDetails: os error 5; folder, 0 bytes, read-only, attributes 0x00000010"
    );
    let five = diagnose(
        "/g",
        "e",
        None,
        Findings::Locked { paths: (0..5).map(|i| format!("/g/{}", i)).collect(), holder: None },
        &Metadata::Missing("gone".to_string()),
        false,
    );
    assert!(five.contains("holding at least 5 files under it open"));
    assert!(five.contains("No process is running out of the game folder"));
    assert!(five.ends_with("os error none; no metadata (gone)"));
    let one = diagnose("/g/x", "e", Some(32), Findings::Locked { paths: vec!["/g/x".to_string()], holder: None }, &Metadata::Missing("m".to_string()), false);
    assert!(one.contains("holding it open"));
    assert!(one.contains("\n- ``\n"));
}

#[test]
fn stranded_rename_is_reported() {
    let report = diagnose("/g/s", "e", Some(5), Findings::Unlocked(RenameOutcome::Stranded("/g/s.probe".to_string())), &Metadata::Missing("m".to_string()), false);
    assert!(report.contains("the path is now /g/s.probe and needs moving back to /g/s by hand."));
}

#[test]
fn long_reports_are_clipped() {
    let long = "x".repeat(5000);
    let report = diagnose("/g", &long, Some(5), Findings::Unlocked(RenameOutcome::Allowed), &Metadata::Missing("m".to_string()), false);
    assert_eq!(report.chars().count(), MAX_MESSAGE);
    assert!(report.ends_with('\u{2026}'));
    assert!(report.starts_with("Could not delete /g: xxx"));
}

#[test]
fn relative_names_read_against_the_target() {
    assert_eq!(relative("/g/saves/a/b.sav", "/g/saves", false), "a/b.sav");
    assert_eq!(relative("/g/saves", "/g/saves", false), "");
    assert_eq!(relative("/g/other/c", "/g/saves", false), "other/c");
    assert_eq!(relative("/elsewhere/c", "/g/saves", false), "/elsewhere/c");
}

#[test]
fn metadata_descriptions() {
    assert_eq!(describe(&Metadata::Present { symlink: true, dir: true, len: 3, readonly: false, attributes: Some(0xABCDEF12) }), "symlink, 3 bytes, attributes 0xabcdef12");
    assert_eq!(describe(&Metadata::Missing("x".to_string())), "no metadata (x)");
}

#[test]
fn holder_is_the_first_process_under_the_game_folder() {
    let procs = vec![
        ProcessInfo { name: "explorer.exe".to_string(), pid: 7, exe: "/windows/explorer.exe".to_string() },
        ProcessInfo { name: "pal".to_string(), pid: 99, exe: "/games/pal/bin/pal".to_string() },
        ProcessInfo { name: "pal2".to_string(), pid: 100, exe: "/games/pal/pal2".to_string() },
        ProcessInfo { name: "palx".to_string(), pid: 101, exe: "/games/palx/p".to_string() },
    ];
    assert_eq!(process_under(&procs, "/games/pal", false), Some("pal (pid 99)".to_string()));
    assert_eq!(process_under(&procs, "/games/none", false), None);
    let only_palx = vec![ProcessInfo { name: "palx".to_string(), pid: 101, exe: "/games/palx/p".to_string() }];
    assert_eq!(process_under(&only_palx, "/games/pal", false), None);
}

#[test]
fn probes_are_named_and_run_only_when_nothing_is_held() {
    assert_eq!(probe_name("level.sav", 1234), "level.sav.forest-ear-probe-1234");
    assert!(rename_probe_needed(&Vec::new()));
    assert!(!rename_probe_needed(&vec!["/g/held".to_string()]));
}
