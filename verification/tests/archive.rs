use forest_ear_bot::archive::{zip_dir, ArchiveAnswer, ArchiveRequest, DirItem};
use std::io::Read;

/// Zips a pretend folder: `dirs` map a folder to its entries, anything else is
/// a file whose contents are its own path.
fn zip(root: &str, dirs: &[(&str, &[&str])]) -> (Result<Vec<u8>, String>, Vec<String>) {
    zip_with(root, dirs, &[], false)
}

fn zip_on(root: &str, dirs: &[(&str, &[&str])], windows: bool) -> (Result<Vec<u8>, String>, Vec<String>) {
    zip_with(root, dirs, &[], windows)
}

/// As `zip`, with `files` giving the contents of the files they name.
fn zip_with(
    root: &str,
    dirs: &[(&str, &[&str])],
    files: &[(&str, &[u8])],
    windows: bool,
) -> (Result<Vec<u8>, String>, Vec<String>) {
    let mut asked = Vec::new();
    let (mut builder, mut request) = zip_dir(root, windows);
    loop {
        let answer = match request {
            ArchiveRequest::Done(result) => return (result, asked),
            ArchiveRequest::ListDir(d) => {
                asked.push(format!("list {}", d));
                let entries = dirs.iter().find(|(p, _)| *p == d).map(|(_, e)| *e).unwrap_or(&[]);
                ArchiveAnswer::Listed(Ok(entries
                    .iter()
                    .map(|e| DirItem { path: e.to_string(), is_dir: dirs.iter().any(|(p, _)| p == e) })
                    .collect()))
            },
            ArchiveRequest::ReadFile(f) => {
                asked.push(format!("read {}", f));
                let contents = files.iter().find(|(p, _)| *p == f).map(|(_, c)| c.to_vec());
                ArchiveAnswer::Read(Ok(contents.unwrap_or_else(|| f.clone().into_bytes())))
            },
        };
        request = builder.advance(answer);
    }
}

#[test]
fn zip_round_trips_through_extract() {
    let dirs: &[(&str, &[&str])] = &[
        ("/src/Saved", &["/src/Saved/level.sav", "/src/Saved/nested"]),
        ("/src/Saved/nested", &["/src/Saved/nested/deep.bin"]),
    ];
    let files: &[(&str, &[u8])] = &[
        ("/src/Saved/level.sav", b"level data"),
        ("/src/Saved/nested/deep.bin", b"deep data"),
    ];
    let (bytes, asked) = zip_with("/src/Saved", dirs, files, false);
    assert_eq!(
        asked,
        [
            "list /src/Saved",
            "read /src/Saved/level.sav",
            "list /src/Saved/nested",
            "read /src/Saved/nested/deep.bin",
        ]
    );
    let mut archive = zip::ZipArchive::new(std::io::Cursor::new(bytes.unwrap())).unwrap();
    let mut names: Vec<String> = archive.file_names().map(|n| n.to_string()).collect();
    names.sort();
    assert_eq!(names, ["level.sav", "nested/", "nested/deep.bin"]);
    let mut level = Vec::new();
    archive.by_name("level.sav").unwrap().read_to_end(&mut level).unwrap();
    assert_eq!(level, b"level data");
    let mut deep = Vec::new();
    archive.by_name("nested/deep.bin").unwrap().read_to_end(&mut deep).unwrap();
    assert_eq!(deep, b"deep data");
}

#[test]
fn listing_errors_abort_the_archive() {
    let (mut builder, request) = zip_dir("/src", false);
    assert!(matches!(request, ArchiveRequest::ListDir(_)));
    match builder.advance(ArchiveAnswer::Listed(Err("Permission denied (os error 13)".to_string()))) {
        ArchiveRequest::Done(Err(e)) => assert_eq!(e, "Permission denied (os error 13)"),
        _ => panic!("expected an error"),
    }
}

#[test]
fn entries_outside_the_folder_are_refused() {
    let (mut builder, _) = zip_dir("/src", false);
    let r = builder.advance(ArchiveAnswer::Listed(Ok(vec![DirItem { path: "/other/x".to_string(), is_dir: false }])));
    match r {
        ArchiveRequest::Done(Err(e)) => assert_eq!(e, "prefix not found"),
        _ => panic!("expected an error"),
    }
}

#[test]
fn an_empty_folder_makes_an_empty_archive() {
    let (bytes, _) = zip("/empty", &[("/empty", &[])]);
    let archive = zip::ZipArchive::new(std::io::Cursor::new(bytes.unwrap())).unwrap();
    assert_eq!(archive.len(), 0);
}

#[test]
fn windows_paths_are_stored_with_forward_slashes() {
    let dirs: &[(&str, &[&str])] = &[
        ("C:\\saves\\Saved", &["C:\\saves\\Saved\\nested"]),
        ("C:\\saves\\Saved\\nested", &["C:\\saves\\Saved\\nested\\deep.bin"]),
    ];
    let (bytes, _) = zip_on("C:\\saves\\Saved", dirs, true);
    let archive = zip::ZipArchive::new(std::io::Cursor::new(bytes.unwrap())).unwrap();
    let mut names: Vec<String> = archive.file_names().map(|n| n.to_string()).collect();
    names.sort();
    assert_eq!(names, ["nested/", "nested/deep.bin"]);
}
