use forest_ear_bot::commands::{config_not_found, desktop_listing, kill_report, started_line, version_line, Victim};
use forest_ear_bot::Data;

#[test]
fn kill_report_lists_each_process() {
    let report = kill_report(&vec![
        Victim { pid: 12, name: "PalServer.exe".to_string(), disk_usage: "DiskUsage { read_bytes: 0 }".to_string() },
        Victim { pid: 13, name: "PalServer.exe".to_string(), disk_usage: "D".to_string() },
    ]);
    assert_eq!(report, "Found:\nkilling [12] PalServer.exe DiskUsage { read_bytes: 0 }\nkilling [13] PalServer.exe D\n");
    assert_eq!(kill_report(&Vec::new()), "Found:\n");
}

#[test]
fn desktop_listing_ends_with_the_hint() {
    let s = desktop_listing(&vec!["/d/a.lnk".to_string(), "/d/b.txt".to_string()]);
    assert_eq!(s, "/d/a.lnk\n/d/b.txt\n\nRun the run_desktop_shortcut with just the filename (no directory) as arg.");
}

#[test]
fn small_replies() {
    assert_eq!(version_line("forest_ear_bot", "0.1.0", "abc123-dirty"), "forest_ear_bot v0.1.0 \u{2014} built from `abc123-dirty`");
    assert_eq!(started_line("Palworld.lnk"), "Started Palworld.lnk");
    assert_eq!(config_not_found("gone"), "File not found: gone");
    let _data = Data {};
}
