use forest_ear_bot::saves::{
    backup_post, check_saves_root, default_saves_root, is_lnk, parse_backup_path,
    pre_restore_notice, restore_target, restored_line, sanitize, shortcut_unparsable,
    truncate_field, upload_failure, EmbedInfo, BACKUP_MARKER,
};

#[test]
fn sanitize_flattens_separators() {
    assert_eq!(sanitize("Palworld_Server/Saved"), "Palworld_Server_Saved");
    assert_eq!(sanitize("A\\B"), "A_B");
}

#[test]
fn shortcuts_are_recognised_by_extension() {
    assert!(is_lnk("C:/Users/me/Desktop/saves/Palworld.lnk", false));
    assert!(is_lnk("Palworld.lnk/", false));
    assert!(is_lnk("dir\\Palworld.lnk", true));
    assert!(!is_lnk(".lnk", false));
    assert!(!is_lnk("Palworld.LNK", false));
    assert!(!is_lnk("Palworld.lnk.bak", false));
    assert!(!is_lnk("Palworld", false));
    assert!(!is_lnk("saves/..", false));
}

#[test]
fn backup_message_carries_path_size_and_marker() {
    let post = backup_post("Palworld_Server/Saved", "Backup", Some("  before the patch  "), 1_572_864, "20260726-143200");
    assert_eq!(post.title, "Backup: Palworld_Server/Saved");
    assert_eq!(post.footer, BACKUP_MARKER);
    assert_eq!(post.filename, "Palworld_Server_Saved_20260726-143200.zip");
    let fields: Vec<(&str, &str, bool)> = post.fields.iter().map(|f| (f.name, f.value.as_str(), f.inline)).collect();
    assert_eq!(
        fields,
        [
            ("path", "Palworld_Server/Saved", false),
            ("size", "1.50 MB", true),
            ("description", "before the patch", false),
        ]
    );

    let blank = backup_post("G", "Backup", Some("   "), 10, "s");
    assert_eq!(blank.fields.len(), 2);
    assert_eq!(blank.fields[1].value, "0.00 MB");
    let none = backup_post("G", "Backup", None, 10, "s");
    assert_eq!(none.fields.len(), 2);
}

#[test]
fn backup_sizes_match_float_formatting() {
    for len in [0usize, 1, 5242, 5243, 1_048_576, 1_053_818, 3_145_728, 10_485_760, 123_456_789] {
        let post = backup_post("p", "t", None, len, "s");
        assert_eq!(post.fields[1].value, format!("{:.2} MB", len as f64 / 1_048_576.0), "len {}", len);
        assert_eq!(
            upload_failure("p", len, "too big"),
            format!("Upload of `p` ({:.1} MB) failed: too big", len as f64 / 1_048_576.0)
        );
    }
}

#[test]
fn long_descriptions_are_clipped() {
    let long = "x".repeat(3000);
    let clipped = truncate_field(&long);
    assert_eq!(clipped.chars().count(), 1024);
    assert!(clipped.ends_with('\u{2026}'));
    let post = backup_post("p", "t", Some(&long), 1, "s");
    assert_eq!(post.fields[2].value, clipped);
}

fn embed(footer: Option<&str>, fields: &[(&str, &str)]) -> EmbedInfo {
    EmbedInfo {
        footer: footer.map(|f| f.to_string()),
        fields: fields.iter().map(|(n, v)| (n.to_string(), v.to_string())).collect(),
    }
}

#[test]
fn only_marked_embeds_name_a_path() {
    let unmarked = vec![embed(Some("someone else"), &[("path", "A")])];
    assert_eq!(parse_backup_path(&unmarked), None);
    let marked = vec![
        embed(None, &[("path", "X")]),
        embed(Some(BACKUP_MARKER), &[("size", "1 MB")]),
        embed(Some(BACKUP_MARKER), &[("size", "1 MB"), ("path", "Game/Saved"), ("path", "Other")]),
    ];
    assert_eq!(parse_backup_path(&marked), Some("Game/Saved".to_string()));
}

#[test]
fn restore_refuses_foreign_or_ambiguous_messages() {
    let marked = vec![embed(Some(BACKUP_MARKER), &[("path", "Game/Saved")])];
    assert_eq!(restore_target(&marked, 1), Ok("Game/Saved".to_string()));
    assert_eq!(restore_target(&marked, 2), Err("Expecting exactly one attachment".to_string()));
    let err = restore_target(&Vec::new(), 1).unwrap_err();
    assert!(err.starts_with("That isn't a backup message from this bot"));
    assert_eq!(pre_restore_notice("G", true), Some("`G` is empty, nothing to save first.".to_string()));
    assert_eq!(pre_restore_notice("G", false), None);
    assert_eq!(restored_line("G"), "Restored `G`.");
}

#[test]
fn saves_root_errors_when_missing() {
    let err = check_saves_root("/tmp/forest_bot_definitely_not_here".to_string(), true, false, false).unwrap_err();
    assert!(err.contains("does not exist"), "unexpected error: {}", err);
    assert!(err.contains("GAME_SAVES_ROOT"), "unexpected error: {}", err);
    let default = check_saves_root("/home/u/Desktop/saves".to_string(), false, false, false).unwrap_err();
    assert!(default.contains("Create it and put shortcuts"), "unexpected error: {}", default);
}

#[test]
fn saves_root_errors_when_it_is_a_file() {
    let err = check_saves_root("/tmp/not_a_folder".to_string(), true, true, false).unwrap_err();
    assert!(err.contains("not a folder"), "unexpected error: {}", err);
    assert_eq!(check_saves_root("/s".to_string(), false, true, true), Ok("/s".to_string()));
    assert_eq!(default_saves_root("/home/u/Desktop", false), "/home/u/Desktop/saves");
}

#[test]
fn bad_shortcut_reports_the_file() {
    let err = shortcut_unparsable("/tmp/Broken.lnk");
    assert!(err.contains("Broken.lnk"), "should name the file: {}", err);
}

#[test]
fn a_posted_backup_can_be_restored() {
    for description in [None, Some("before the patch"), Some("   ")] {
        let post = backup_post("Palworld_Server/Saved", "Pre-restore backup", description, 2048, "20260726-143200");
        let posted = vec![EmbedInfo {
            footer: Some(post.footer.to_string()),
            fields: post.fields.iter().map(|f| (f.name.to_string(), f.value.clone())).collect(),
        }];
        assert_eq!(parse_backup_path(&posted), Some("Palworld_Server/Saved".to_string()));
        assert_eq!(restore_target(&posted, 1), Ok("Palworld_Server/Saved".to_string()));
    }
}
