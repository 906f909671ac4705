//! Save folders: naming backups, recognising the bot's own backup messages,
//! and the messages about the saves root and its shortcuts.
//!
//! Paths here are user-facing: in `Palworld_Server/Saved` the first segment
//! names an entry in the saves root (a `.lnk`, a symlink, or a plain
//! directory) and the rest descends into that entry's target.

use vstd::prelude::*;
use crate::listing::MB;
use crate::numfmt::{as_f64, f64_value, fixed_point, push_fixed_point};
use crate::paths::{extension, joined, path_extension, path_join, opt_seq};
use crate::text::{
    clip, clip_chars, owned, push_str, replace_class, replaced, str_eq, trim, trim_class, CharClass,
};

verus! {

/// Footer marker identifying a message this bot posted as a backup. Restore
/// refuses any message without it, so it can't be pointed at arbitrary zips.
pub const BACKUP_MARKER: &'static str = "forest-ear-bot:backup:v1";

/// Discord rejects embed field values longer than this many characters.
pub const MAX_FIELD: usize = 1024;

/// `path` names a Windows shortcut file: its extension is exactly `lnk`.
pub open spec fn names_shortcut(path: Seq<char>, windows: bool) -> bool {
    extension(path, windows) == Some("lnk"@)
}

/// True if `path` names a Windows shortcut file.
pub fn is_lnk(path: &str, windows: bool) -> (b: bool)
    ensures
        b == names_shortcut(path@, windows),
{
    match path_extension(path, windows) {
        Some(e) => str_eq(e.as_str(), "lnk"),
        None => false,
    }
}

/// `path` flattened into one file-name-safe piece: slashes become `_`.
pub fn sanitize(path: &str) -> (s: String)
    ensures
        s@ == replaced(path@, CharClass::Slash, '_'),
{
    replace_class(path, &CharClass::Slash, '_')
}

/// A field value clipped to Discord's limit, counted in characters.
pub fn truncate_field(text: &str) -> (s: String)
    ensures
        s@ == clip(text@, MAX_FIELD as nat),
        s@.len() <= MAX_FIELD,
{
    clip_chars(text, MAX_FIELD)
}

// ---------------------------------------------------------------------------
// Backup messages
// ---------------------------------------------------------------------------

/// One field of a backup embed.
pub struct Field {
    pub name: &'static str,
    pub value: String,
    pub inline: bool,
}

/// Everything a backup message carries besides the archive bytes.
pub struct BackupPost {
    pub title: String,
    pub fields: Vec<Field>,
    pub footer: &'static str,
    pub filename: String,
}

/// A size in mebibytes with `places` decimals, as `{:.places}` prints
/// `len as f64 / 1_048_576.0`.
pub open spec fn megabytes(len: nat, places: nat) -> Seq<char> {
    fixed_point(as_f64(len), MB as nat, places)
}

/// The note a backup carries: the description trimmed, unless blank, and
/// clipped to the field limit.
pub open spec fn backup_note(description: Option<Seq<char>>) -> Option<Seq<char>> {
    match description {
        Some(d) => if trim(d, CharClass::WhiteSpace).len() > 0 {
            Some(clip(trim(d, CharClass::WhiteSpace), MAX_FIELD as nat))
        } else {
            None
        },
        None => None,
    }
}

/// A field as its name, value and inline flag.
pub open spec fn field_view(f: Field) -> (Seq<char>, Seq<char>, bool) {
    (f.name@, f.value@, f.inline)
}

/// The fields of a backup of `path` whose archive has `len` bytes.
pub open spec fn backup_fields(path: Seq<char>, len: nat, description: Option<Seq<char>>) -> Seq<
    (Seq<char>, Seq<char>, bool),
> {
    let base = seq![("path"@, path, false), ("size"@, megabytes(len, 2) + " MB"@, true)];
    match backup_note(description) {
        Some(note) => base.push(("description"@, note, false)),
        None => base,
    }
}

/// The message that posts a backup of `path`: title `"{title}: {path}"`, the
/// path, size and optional description as fields, the backup marker as
/// footer, and the archive named after the path and `stamp`.
pub fn backup_post(
    path: &str,
    title: &str,
    description: Option<&str>,
    archive_len: usize,
    stamp: &str,
) -> (post: BackupPost)
    ensures
        post.title@ == title@ + ": "@ + path@,
        post.fields@.map_values(|f: Field| field_view(f)) == backup_fields(
            path@,
            archive_len as nat,
            crate::steamcmd::opt_str(description),
        ),
        post.footer@ == BACKUP_MARKER@,
        post.filename@ == replaced(path@, CharClass::Slash, '_') + "_"@ + stamp@ + ".zip"@,
{
    let mut heading = owned(title);
    push_str(&mut heading, ": ");
    push_str(&mut heading, path);
    let mut size = String::new();
    push_fixed_point(&mut size, f64_value(archive_len as u64), MB as u128, 2);
    push_str(&mut size, " MB");
    let mut fields: Vec<Field> = Vec::new();
    fields.push(Field { name: "path", value: owned(path), inline: false });
    fields.push(Field { name: "size", value: size, inline: true });
    let ghost base = fields@.map_values(|f: Field| field_view(f));
    assert(base =~= seq![("path"@, path@, false), ("size"@, megabytes(archive_len as nat, 2) + " MB"@, true)]);
    match description {
        Some(d) => {
            let t = trim_class(d, &CharClass::WhiteSpace);
            if t.as_str().unicode_len() > 0 {
                let note = truncate_field(t.as_str());
                fields.push(Field { name: "description", value: note, inline: false });
                assert(fields@.map_values(|f: Field| field_view(f)) =~= base.push(
                    ("description"@, note@, false),
                ));
            }
        },
        None => {},
    }
    let mut filename = sanitize(path);
    push_str(&mut filename, "_");
    push_str(&mut filename, stamp);
    push_str(&mut filename, ".zip");
    BackupPost { title: heading, fields, footer: BACKUP_MARKER, filename }
}

/// The error reported when Discord refuses a backup upload.
pub fn upload_failure(path: &str, archive_len: usize, err: &str) -> (s: String)
    ensures
        s@ == "Upload of `"@ + path@ + "` ("@ + megabytes(archive_len as nat, 1) + " MB) failed: "@
            + err@,
{
    let mut s = owned("Upload of `");
    push_str(&mut s, path);
    push_str(&mut s, "` (");
    push_fixed_point(&mut s, f64_value(archive_len as u64), MB as u128, 1);
    push_str(&mut s, " MB) failed: ");
    push_str(&mut s, err);
    s
}

/// An embed of a message, as far as recognising a backup needs it.
pub struct EmbedInfo {
    /// The footer text, if there is a footer.
    pub footer: Option<String>,
    /// The fields, as name and value.
    pub fields: Vec<(String, String)>,
}

/// The value of the first field named `path`, if any.
pub open spec fn path_field(fields: Seq<(String, String)>) -> Option<Seq<char>>
    decreases fields.len(),
{
    if fields.len() == 0 {
        None
    } else if fields[0].0@ == "path"@ {
        Some(fields[0].1@)
    } else {
        path_field(fields.drop_first())
    }
}

/// The embed carries this bot's backup marker.
pub open spec fn is_marked(e: EmbedInfo) -> bool {
    match e.footer {
        Some(f) => f@ == BACKUP_MARKER@,
        None => false,
    }
}

/// The path recorded by the first marked embed that has a `path` field.
pub open spec fn recorded_path(embeds: Seq<EmbedInfo>) -> Option<Seq<char>>
    decreases embeds.len(),
{
    if embeds.len() == 0 {
        None
    } else {
        let here = if is_marked(embeds[0]) {
            path_field(embeds[0].fields@)
        } else {
            None
        };
        match here {
            Some(p) => Some(p),
            None => recorded_path(embeds.drop_first()),
        }
    }
}

fn find_path_field(fields: &Vec<(String, String)>) -> (r: Option<String>)
    ensures
        opt_seq(r) == path_field(fields@),
{
    let mut i: usize = 0;
    assert(fields@.skip(0) == fields@);
    while i < fields.len()
        invariant
            i <= fields@.len(),
            path_field(fields@) == path_field(fields@.skip(i as int)),
        decreases fields@.len() - i,
    {
        assert(fields@.skip(i as int).drop_first() =~= fields@.skip(i + 1));
        assert(fields@.skip(i as int)[0] == fields@[i as int]);
        if str_eq(fields[i].0.as_str(), "path") {
            return Some(fields[i].1.clone());
        }
        i = i + 1;
    }
    None
}

/// Recover the path a backup message was created from: `None` unless the
/// message carries this bot's marker, so restore can refuse messages that
/// merely happen to have a zip attached.
pub fn parse_backup_path(embeds: &Vec<EmbedInfo>) -> (r: Option<String>)
    ensures
        opt_seq(r) == recorded_path(embeds@),
{
    let mut i: usize = 0;
    assert(embeds@.skip(0) == embeds@);
    while i < embeds.len()
        invariant
            i <= embeds@.len(),
            recorded_path(embeds@) == recorded_path(embeds@.skip(i as int)),
        decreases embeds@.len() - i,
    {
        assert(embeds@.skip(i as int).drop_first() =~= embeds@.skip(i + 1));
        assert(embeds@.skip(i as int)[0] == embeds@[i as int]);
        let e = &embeds[i];
        let marked = match &e.footer {
            Some(f) => str_eq(f.as_str(), BACKUP_MARKER),
            None => false,
        };
        if marked {
            let found = find_path_field(&e.fields);
            if found.is_some() {
                return found;
            }
        }
        i = i + 1;
    }
    None
}

/// A message without this bot's backup marker names no path, so a restore
/// cannot be pointed at an arbitrary zip.
pub proof fn lemma_unmarked_messages_name_no_path(embeds: Seq<EmbedInfo>)
    requires
        forall|i: int| 0 <= i < embeds.len() ==> !is_marked(#[trigger] embeds[i]),
    ensures
        recorded_path(embeds) is None,
    decreases embeds.len(),
{
    if embeds.len() > 0 {
        assert forall|i: int| 0 <= i < embeds.drop_first().len() implies !is_marked(
            #[trigger] embeds.drop_first()[i],
        ) by {
            assert(embeds.drop_first()[i] == embeds[i + 1]);
        }
        lemma_unmarked_messages_name_no_path(embeds.drop_first());
    }
}

/// The embed `e` shows the message `post`: the same footer, and the same
/// fields by name and value, in order.
pub open spec fn shows_post(e: EmbedInfo, post: BackupPost) -> bool {
    &&& e.footer matches Some(f) && f@ == post.footer@
    &&& e.fields@.len() == post.fields@.len()
    &&& forall|i: int|
        0 <= i < e.fields@.len() ==> (#[trigger] e.fields@[i]).0@ == post.fields@[i].name@
            && e.fields@[i].1@ == post.fields@[i].value@
}

/// Every backup message can be restored: the embed of a message built by
/// `backup_post` for `path` records `path`, so a restore from it, with its
/// one attachment, writes back to `path`.
pub proof fn lemma_backup_is_restorable(
    post: BackupPost,
    e: EmbedInfo,
    path: Seq<char>,
    len: nat,
    description: Option<Seq<char>>,
)
    requires
        post.fields@.map_values(|f: Field| field_view(f)) == backup_fields(path, len, description),
        post.footer@ == BACKUP_MARKER@,
        shows_post(e, post),
    ensures
        recorded_path(seq![e]) == Some(path),
        restore_source(seq![e], 1) == Ok::<Seq<char>, Seq<char>>(path),
{
    let shown = post.fields@.map_values(|f: Field| field_view(f));
    let base = seq![("path"@, path, false), ("size"@, megabytes(len, 2) + " MB"@, true)];
    assert(backup_fields(path, len, description)[0] == base[0]);
    assert(shown.len() == post.fields@.len());
    assert(shown[0] == field_view(post.fields@[0]));
    assert(e.fields@[0].0@ == "path"@);
    assert(path_field(e.fields@) == Some(path));
    assert(seq![e].drop_first() =~= Seq::<EmbedInfo>::empty());
}

// ---------------------------------------------------------------------------
// The saves root and shortcuts
// ---------------------------------------------------------------------------

/// Where the saves live when `GAME_SAVES_ROOT` is unset: `saves` on the desktop.
pub fn default_saves_root(desktop: &str, windows: bool) -> (p: String)
    ensures
        p@ == joined(desktop@, "saves"@, windows),
{
    path_join(desktop, "saves", windows)
}

/// What `saves_root` answers for a candidate folder.
pub open spec fn root_check(root: Seq<char>, from_env: bool, exists: bool, is_dir: bool) -> Result<
    Seq<char>,
    Seq<char>,
> {
    if !exists {
        Err("Saves folder "@ + root + " does not exist. "@ + if from_env {
            "GAME_SAVES_ROOT points there \u{2014} fix the variable or create the folder."@
        } else {
            "Create it and put shortcuts to your game folders inside, or set GAME_SAVES_ROOT."@
        })
    } else if !is_dir {
        Err("Saves folder "@ + root + " is a file, not a folder."@)
    } else {
        Ok(root)
    }
}

/// Accepts `root` as the saves folder only if it exists and is a folder, so
/// a bad setup reports itself plainly; the hint names the override when the
/// path came from it.
pub fn check_saves_root(root: String, from_env: bool, exists: bool, is_dir: bool) -> (r: Result<
    String,
    String,
>)
    ensures
        crate::steamcmd::result_view(r) == root_check(root@, from_env, exists, is_dir),
{
    if !exists {
        let mut e = owned("Saves folder ");
        push_str(&mut e, root.as_str());
        push_str(&mut e, " does not exist. ");
        if from_env {
            push_str(&mut e, "GAME_SAVES_ROOT points there \u{2014} fix the variable or create the folder.");
        } else {
            push_str(&mut e, "Create it and put shortcuts to your game folders inside, or set GAME_SAVES_ROOT.");
        }
        return Err(e);
    }
    if !is_dir {
        let mut e = owned("Saves folder ");
        push_str(&mut e, root.as_str());
        push_str(&mut e, " is a file, not a folder.");
        return Err(e);
    }
    Ok(root)
}

/// The error for a shortcut file that cannot be read.
pub fn shortcut_unreadable(path: &str, err: &str) -> (s: String)
    ensures
        s@ == "Could not read shortcut "@ + path@ + ": "@ + err@,
{
    let mut s = owned("Could not read shortcut ");
    push_str(&mut s, path);
    push_str(&mut s, ": ");
    push_str(&mut s, err);
    s
}

/// The error for a shortcut with no usable target.
pub fn shortcut_without_target(path: &str) -> (s: String)
    ensures
        s@ == "Shortcut "@ + path@ + " has no resolvable target path"@,
{
    let mut s = owned("Shortcut ");
    push_str(&mut s, path);
    push_str(&mut s, " has no resolvable target path");
    s
}

/// The error for a shortcut whose target cannot be reached.
pub fn shortcut_target_unreachable(target: &str, err: &str) -> (s: String)
    ensures
        s@ == "Shortcut target "@ + target@ + " is unreachable: "@ + err@,
{
    let mut s = owned("Shortcut target ");
    push_str(&mut s, target);
    push_str(&mut s, " is unreachable: ");
    push_str(&mut s, err);
    s
}

/// The error for a shortcut the parser gave up on.
pub fn shortcut_unparsable(path: &str) -> (s: String)
    ensures
        s@ == "Shortcut "@ + path@
            + " could not be parsed (unsupported .lnk layout, e.g. a network/UNC target)"@,
{
    let mut s = owned("Shortcut ");
    push_str(&mut s, path);
    push_str(&mut s, " could not be parsed (unsupported .lnk layout, e.g. a network/UNC target)");
    s
}

} // verus!

verus! {

// ---------------------------------------------------------------------------
// Restoring
// ---------------------------------------------------------------------------

/// What a restore makes of a message: the path it records, or why it is refused.
pub open spec fn restore_source(embeds: Seq<EmbedInfo>, attachments: nat) -> Result<
    Seq<char>,
    Seq<char>,
> {
    match recorded_path(embeds) {
        None => Err(
            "That isn't a backup message from this bot \u{2014} restore only works on messages `/backup` posted."@,
        ),
        Some(path) => if attachments != 1 {
            Err("Expecting exactly one attachment"@)
        } else {
            Ok(path)
        },
    }
}

/// The path a restore writes to, or the reply that refuses it: only this
/// bot's backup messages with exactly one attachment can be restored.
pub fn restore_target(embeds: &Vec<EmbedInfo>, attachments: usize) -> (r: Result<String, String>)
    ensures
        crate::steamcmd::result_view(r) == restore_source(embeds@, attachments as nat),
{
    match parse_backup_path(embeds) {
        None => Err(
            owned(
                "That isn't a backup message from this bot \u{2014} restore only works on messages `/backup` posted.",
            ),
        ),
        Some(path) => if attachments != 1 {
            Err(owned("Expecting exactly one attachment"))
        } else {
            Ok(path)
        },
    }
}

/// The title of the safety copy posted before a restore.
pub const PRE_RESTORE_TITLE: &'static str = "Pre-restore backup";

/// The description of the safety copy posted before a restore.
pub const PRE_RESTORE_NOTE: &'static str = "Automatic snapshot taken just before a restore. Restore this message to undo.";

/// What to say instead of posting a safety copy: an empty folder has nothing
/// worth saving.
pub fn pre_restore_notice(path: &str, empty: bool) -> (r: Option<String>)
    ensures
        empty ==> (r matches Some(s) && s@ == "`"@ + path@ + "` is empty, nothing to save first."@),
        !empty ==> r is None,
{
    if empty {
        let mut s = owned("`");
        push_str(&mut s, path);
        push_str(&mut s, "` is empty, nothing to save first.");
        Some(s)
    } else {
        None
    }
}

/// The reply once a restore is done.
pub fn restored_line(path: &str) -> (s: String)
    ensures
        s@ == "Restored `"@ + path@ + "`."@,
{
    let mut s = owned("Restored `");
    push_str(&mut s, path);
    push_str(&mut s, "`.");
    s
}

} // verus!
