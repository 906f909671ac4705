use forest_ear_bot::listing::{
    collect_rows, human_size, list_saves_message, listing_request, render_listing, sort_rows, Entry,
    EntryKind, Row, MAX_MESSAGE,
};

fn file_row(name: &str, size: u64) -> Row {
    Row {
        enterable: false,
        marker: "     ",
        name: name.to_string(),
        detail: format!("  ({})", human_size(size)),
    }
}

fn dir_row(name: &str) -> Row {
    Row {
        enterable: true,
        marker: "[dir]",
        name: format!("{}/", name),
        detail: String::new(),
    }
}

#[test]
fn human_size_scales_units() {
    assert_eq!(human_size(512), "512 B");
    assert_eq!(human_size(2048), "2.0 KB");
    assert_eq!(human_size(5 * 1024 * 1024), "5.0 MB");
}

#[test]
fn long_listing_stays_under_the_limit() {
    let rows: Vec<Row> = (0..500)
        .map(|i| file_row(&format!("save_file_number_{:04}.sav", i), 1024))
        .collect();

    let out = render_listing("header\n", &rows);

    assert!(out.len() <= MAX_MESSAGE + 32, "too long: {}", out.len());
    assert!(out.contains("more"), "expected a truncation note");
    assert!(out.contains("save_file_number_0000.sav"));
    assert!(!out.contains("save_file_number_0499.sav"));
}

#[test]
fn short_listing_is_not_truncated() {
    let rows = vec![dir_row("nested"), file_row("level.sav", 2048)];
    let out = render_listing("header\n", &rows);
    assert!(out.contains("[dir]  nested/"));
    assert!(out.contains("level.sav  (2.0 KB)"));
    assert!(!out.contains("more"));
}

#[test]
fn empty_listing_says_so() {
    assert!(render_listing("header\n", &Vec::new()).contains("(empty)"));
}

#[test]
fn shortcut_row_shows_its_target() {
    let rows = vec![Row {
        enterable: true,
        marker: "[lnk]",
        name: String::from("Palworld_Server"),
        detail: String::from(" -> D:\\Games\\Palworld"),
    }];
    let out = render_listing("header\n", &rows);
    assert!(out.contains("[lnk]  Palworld_Server -> D:\\Games\\Palworld"));
}

#[test]
fn enterable_entries_sort_before_files() {
    let rows = vec![
        file_row("a_file", 1),
        dir_row("z_dir"),
        file_row("b_file", 1),
        dir_row("a_dir"),
    ];
    let rows = sort_rows(rows);
    let names: Vec<&str> = rows.iter().map(|r| r.name.as_str()).collect();
    assert_eq!(names, ["a_dir/", "z_dir/", "a_file", "b_file"]);
}

/// The sizes agree with how `{:.1}` prints the same division in floating
/// point, ties and huge values included.
#[test]
fn human_size_matches_float_formatting() {
    let mut samples: Vec<u64> = vec![
        0,
        1,
        1023,
        1024,
        1075,
        1126,
        1280,
        1331,
        2560,
        3840,
        52_480,
        1_048_575,
        1_048_576,
        1_153_434,
        1_310_720,
        5_767_168,
        u64::MAX,
        u64::MAX - 1,
        (1u64 << 53) + 1,
        (1u64 << 53) + 3,
        (1u64 << 60) + 12345,
    ];
    for k in 0..4000u64 {
        samples.push(k * 256);
        samples.push(k * 104_858);
        samples.push(1_048_576 + k * 52_429);
    }
    for b in samples {
        let expected = if b >= 1024 * 1024 {
            format!("{:.1} MB", b as f64 / (1024.0 * 1024.0))
        } else if b >= 1024 {
            format!("{:.1} KB", b as f64 / 1024.0)
        } else {
            format!("{} B", b)
        };
        assert_eq!(human_size(b), expected, "bytes: {}", b);
    }
}

#[test]
fn ties_round_to_even() {
    // 1280 bytes is exactly 1.25 KB and 3840 exactly 3.75 KB.
    assert_eq!(human_size(1280), "1.2 KB");
    assert_eq!(human_size(3840), "3.8 KB");
    assert_eq!(human_size(1023), "1023 B");
    assert_eq!(human_size(1024 * 1024 - 1), "1024.0 KB");
}

#[test]
fn rows_describe_their_entries() {
    let rows = collect_rows(vec![
        Entry { name: "notes.txt".to_string(), kind: EntryKind::File(10) },
        Entry { name: "Palworld.lnk".to_string(), kind: EntryKind::Shortcut(Ok("D:\\Palworld".to_string())) },
        Entry { name: "Broken.lnk".to_string(), kind: EntryKind::Shortcut(Err("bad".to_string())) },
        Entry { name: "Saved".to_string(), kind: EntryKind::Directory },
    ]);
    let lines: Vec<String> = rows
        .iter()
        .map(|r| format!("{}|{}|{}", r.marker, r.name, r.detail))
        .collect();
    assert_eq!(
        lines,
        [
            "[lnk]|Broken| -> unresolved (bad)",
            "[lnk]|Palworld| -> D:\\Palworld",
            "[dir]|Saved/|",
            "     |notes.txt|  (10 B)",
        ]
    );
}

#[test]
fn truncation_note_counts_the_rows_left_out() {
    let rows: Vec<Row> = (0..200).map(|i| file_row(&format!("{:0>60}", i), 1)).collect();
    let out = render_listing("h\n", &rows);
    let shown = out.lines().filter(|l| l.contains("(1 B)")).count();
    assert!(out.ends_with(&format!("  \u{2026} and {} more\n", 200 - shown)));
    assert!(out.len() <= MAX_MESSAGE + 32);
}

#[test]
fn list_saves_reply_has_header_and_hint() {
    assert_eq!(listing_request(Some("  Palworld_Server/Saved ".to_string())), Some("Palworld_Server/Saved".to_string()));
    assert_eq!(listing_request(Some("   ".to_string())), None);
    assert_eq!(listing_request(None), None);

    let rows = vec![dir_row("nested")];
    let with_path = list_saves_message(&Some("Game".to_string()), "/saves/Game", &rows);
    assert_eq!(
        with_path,
        "`Game` (/saves/Game):\n  [dir]  nested/\n\nBack this up with `/backup Game`, or a single file with `/backup Game/<file>`."
    );
    let root = list_saves_message(&None, "/saves", &Vec::new());
    assert_eq!(
        root,
        "Save entries in /saves:\n  (empty)\n\nList a folder with `/list_saves <entry>/<subfolder>`."
    );
}

#[test]
fn rows_that_tie_keep_their_order() {
    let rows = sort_rows(vec![
        file_row("same", 1),
        dir_row("d"),
        file_row("same", 2048),
        file_row("a", 3),
        file_row("same", 5 * 1024 * 1024),
    ]);
    let shown: Vec<(&str, &str)> = rows.iter().map(|r| (r.name.as_str(), r.detail.as_str())).collect();
    assert_eq!(
        shown,
        [("d/", ""), ("a", "  (3 B)"), ("same", "  (1 B)"), ("same", "  (2.0 KB)"), ("same", "  (5.0 MB)")]
    );
}
