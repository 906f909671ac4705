use forest_ear_bot::resolve::{path_entry, split_leaf};
use forest_ear_bot::resolve::{resolve, Answer, Request};

/// Resolves `path` against a pretend filesystem: `dirs` are folders, `files`
/// are plain files, `links` are `.lnk` files with their targets, and
/// `symlinks` map a path to where it leads.
fn run(
    path: &str,
    root: Result<&str, &str>,
    dirs: &[&str],
    files: &[&str],
    links: &[(&str, &str)],
    symlinks: &[(&str, &str)],
) -> (Result<String, String>, Vec<String>) {
    let mut asked = Vec::new();
    let (mut resolver, mut request) = resolve(path, false);
    loop {
        let answer = match request {
            Request::Done(result) => return (result, asked),
            Request::SavesRoot => Answer::Root(root.map(|r| r.to_string()).map_err(|e| e.to_string())),
            Request::Exists(p) => {
                asked.push(format!("exists {}", p));
                let exists = dirs.contains(&p.as_str())
                    || files.contains(&p.as_str())
                    || links.iter().any(|(l, _)| *l == p)
                    || symlinks.iter().any(|(l, _)| *l == p);
                Answer::Exists(exists)
            },
            Request::ReadShortcut(p) => {
                asked.push(format!("shortcut {}", p));
                Answer::Target(match links.iter().find(|(l, _)| *l == p) {
                    Some((_, t)) => Ok(t.to_string()),
                    None => Err(format!("Could not read shortcut {}", p)),
                })
            },
            Request::Canonicalize(p) => {
                asked.push(format!("canonical {}", p));
                Answer::Target(Ok(symlinks
                    .iter()
                    .find(|(l, _)| *l == p)
                    .map(|(_, t)| t.to_string())
                    .unwrap_or(p)))
            },
            Request::IsDir(p) => Answer::IsDir(dirs.contains(&p.as_str())),
        };
        assert!(resolver.expects(&answer));
        request = resolver.advance(answer);
    }
}

const DIRS: &[&str] = &["/saves", "/saves/Palworld_Server", "/saves/Palworld_Server/Saved", "/elsewhere", "/games/pal"];

#[test]
fn resolves_nested_path() {
    let (result, asked) = run("Palworld_Server/Saved", Ok("/saves"), DIRS, &["/saves/Palworld_Server/Saved/level.sav"], &[], &[]);
    assert_eq!(result, Ok("/saves/Palworld_Server/Saved".to_string()));
    assert_eq!(
        asked,
        [
            "exists /saves/Palworld_Server",
            "canonical /saves/Palworld_Server",
            "exists /saves/Palworld_Server/Saved",
            "canonical /saves/Palworld_Server/Saved",
        ]
    );
}

#[test]
fn rejects_parent_traversal() {
    let (result, _) = run("Palworld_Server/../../etc", Ok("/saves"), DIRS, &[], &[], &[]);
    let err = result.unwrap_err();
    assert!(err.contains("not allowed"), "unexpected error: {}", err);
    assert_eq!(err, "`..` is not allowed in a path \u{2014} only plain folder names are.");
}

#[test]
fn rejects_absolute_segment() {
    let (result, _) = run("Palworld_Server//etc/passwd", Ok("/saves"), DIRS, &[], &[], &[]);
    assert_eq!(result, Err("`Palworld_Server//etc/passwd` has an empty path segment".to_string()));
}

#[test]
fn rejects_unknown_entry() {
    let (result, asked) = run("NotAGame/Saved", Ok("/saves"), DIRS, &[], &[], &[]);
    assert_eq!(
        result,
        Err("`NotAGame` does not exist in /saves. Use /list_saves to see what's available.".to_string())
    );
    assert_eq!(asked, ["exists /saves/NotAGame", "exists /saves/NotAGame.lnk"]);
}

#[test]
fn follows_a_link_partway_down_the_path() {
    let (result, _) = run("Palworld_Server/Linked", Ok("/saves"), DIRS, &[], &[], &[("/saves/Palworld_Server/Linked", "/elsewhere")]);
    assert_eq!(result, Ok("/elsewhere".to_string()));
}

#[test]
fn shortcuts_are_followed_with_or_without_extension() {
    let links = &[("/saves/Pal.lnk", "/games/pal")];
    let (without, asked) = run("Pal", Ok("/saves"), DIRS, &[], links, &[]);
    assert_eq!(without, Ok("/games/pal".to_string()));
    assert_eq!(asked, ["exists /saves/Pal", "exists /saves/Pal.lnk", "shortcut /saves/Pal.lnk"]);
    let (with, asked) = run("Pal.lnk", Ok("/saves"), DIRS, &[], links, &[]);
    assert_eq!(with, Ok("/games/pal".to_string()));
    assert_eq!(asked, ["exists /saves/Pal.lnk", "shortcut /saves/Pal.lnk"]);
}

#[test]
fn paths_are_trimmed_and_flipped() {
    let (result, _) = run("  /Palworld_Server\\Saved/ ", Ok("/saves"), DIRS, &[], &[], &[]);
    assert_eq!(result, Ok("/saves/Palworld_Server/Saved".to_string()));
    let (empty, asked) = run(" // ", Ok("/saves"), DIRS, &[], &[], &[]);
    assert_eq!(empty, Err("Empty path. Try something like `Palworld_Server/Saved`.".to_string()));
    assert!(asked.is_empty());
}

#[test]
fn files_and_missing_roots_are_refused() {
    let (file, _) = run("Palworld_Server/Saved/level.sav", Ok("/saves"), DIRS, &["/saves/Palworld_Server/Saved/level.sav"], &[], &[]);
    assert_eq!(file, Err("`Palworld_Server/Saved/level.sav` is a file, not a folder".to_string()));
    let (root, _) = run("X", Err("Saves folder /saves does not exist."), DIRS, &[], &[], &[]);
    assert_eq!(root, Err("Saves folder /saves does not exist.".to_string()));
    let (dot, _) = run("./X", Ok("/saves"), DIRS, &[], &[], &[]);
    assert_eq!(dot, Err("`.` is not allowed in a path \u{2014} only plain folder names are.".to_string()));
}

#[test]
fn every_probe_is_a_plain_name_inside_the_folder_reached() {
    let (result, asked) = run("Pal/Saved", Ok("/saves"), DIRS, &[], &[("/saves/Pal.lnk", "/games/pal")], &[]);
    assert_eq!(result, Err("`Saved` does not exist in /games/pal. Use /list_saves to see what's available.".to_string()));
    assert_eq!(
        asked,
        [
            "exists /saves/Pal",
            "exists /saves/Pal.lnk",
            "shortcut /saves/Pal.lnk",
            "exists /games/pal/Saved",
            "exists /games/pal/Saved.lnk",
        ]
    );
    let (mut resolver, _) = resolve("Pal/C:", true);
    let request = resolver.advance(Answer::Root(Ok("C:\\saves".to_string())));
    match request {
        Request::Exists(p) => assert_eq!(p, "C:\\saves\\Pal"),
        _ => panic!("expected a probe"),
    }
    let request = resolver.advance(Answer::Exists(true));
    assert!(matches!(request, Request::Canonicalize(ref p) if p == "C:\\saves\\Pal"));
    match resolver.advance(Answer::Target(Ok("D:\\pal".to_string()))) {
        Request::Done(Err(e)) => assert_eq!(e, "`C:` is not allowed in a path \u{2014} only plain folder names are."),
        _ => panic!("expected a refusal"),
    }
}

#[test]
fn surrounding_blanks_slashes_and_backslashes_do_not_matter() {
    let t = "Palworld_Server/Saved";
    let plain = run(t, Ok("/saves"), DIRS, &[], &[], &[]);
    assert_eq!(run(&format!("  /{}/  ", t), Ok("/saves"), DIRS, &[], &[], &[]), plain);
    assert_eq!(run(&t.replace('/', "\\"), Ok("/saves"), DIRS, &[], &[], &[]), plain);
}

#[test]
fn leaves_split_from_their_parent() {
    assert_eq!(split_leaf(" /Game\\Saved/ ", false), Some(("Game".to_string(), "Saved".to_string())));
    assert_eq!(split_leaf("Game", false), Some((String::new(), "Game".to_string())));
    assert_eq!(split_leaf("Game/..", false), None);
    assert_eq!(split_leaf("  ", false), None);
    assert_eq!(path_entry("Game/Saved/x"), "Game");
}
