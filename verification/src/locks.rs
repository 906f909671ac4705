//! Telling a locked file apart from one we genuinely may not touch.
//!
//! On Windows a file another process holds open without `FILE_SHARE_DELETE`
//! cannot be unlinked, and the refusal reads exactly like a permissions
//! problem. The walk that finds held files and the report that explains a
//! failed delete are decided here; the probes themselves happen outside, while
//! the failure is fresh, because a lock lives and dies with its holder.

use vstd::prelude::*;
use crate::paths::{opt_seq, parent, path_parent, path_strip_prefix, starts_with, strip_prefix};
use crate::text::{
    clip, clip_chars, decimal, in_base, owned, pad_left, push_decimal, push_padded, push_signed,
    push_str, signed_decimal, views,
};

verus! {

/// Give up walking a directory after this many entries.
pub const MAX_PROBE: usize = 4096;

/// How many locked paths are worth naming.
pub const MAX_REPORTED: usize = 5;

/// The longest diagnosis, in characters, so the reply still fits in Discord.
pub const MAX_MESSAGE: usize = 1800;

// ---------------------------------------------------------------------------
// The walk
// ---------------------------------------------------------------------------

/// What probing one path found.
pub enum Probe {
    /// A folder, with its entries, or `None` when it could not be read.
    Directory(Option<Vec<String>>),
    /// A file, and whether another process holds it open.
    File(bool),
}

/// A search for files that other processes hold open, at or under a target.
///
/// Only files are probed: a directory handle is held by anything merely
/// looking at the folder, so probing directories reports locks that would not
/// have blocked a delete.
pub struct LockWalk {
    stack: Vec<String>,
    current: String,
    found: Vec<String>,
    seen: usize,
    limit: usize,
    finished: bool,
}

/// The state of a walk.
pub struct WalkState {
    /// Paths still to visit; the last is visited next.
    pub stack: Seq<Seq<char>>,
    /// The path handed out last, whose probe comes next.
    pub current: Seq<char>,
    /// Held files found so far, in the order found.
    pub found: Seq<Seq<char>>,
    /// Paths handed out so far.
    pub seen: nat,
    /// How many held files to look for.
    pub limit: nat,
    /// Whether the walk is over.
    pub finished: bool,
}

impl LockWalk {
    pub closed spec fn state(&self) -> WalkState {
        WalkState {
            stack: views(self.stack@),
            current: self.current@,
            found: views(self.found@),
            seen: self.seen as nat,
            limit: self.limit as nat,
            finished: self.finished,
        }
    }

    /// The bounds every walk keeps: never more held files than asked for, the
    /// walk over once that many are found, and at most `MAX_PROBE` paths
    /// handed out.
    pub open spec fn wf(&self) -> bool {
        &&& self.state().found.len() <= self.state().limit
        &&& self.state().found.len() == self.state().limit ==> self.state().finished
        &&& self.state().seen <= MAX_PROBE + 1
        &&& self.state().seen > MAX_PROBE ==> self.state().finished
    }

    /// Starts a search for up to `limit` held files at or under `target`.
    ///
    /// Unlinking on POSIX never fails because a file is open, so off Windows
    /// the walk is over before it starts.
    pub fn start(target: String, limit: usize, windows: bool) -> (w: LockWalk)
        ensures
            w.wf(),
            w.state() == (WalkState {
                stack: seq![target@],
                current: Seq::empty(),
                found: Seq::empty(),
                seen: 0,
                limit: limit as nat,
                finished: !windows || limit == 0,
            }),
    {
        let mut stack: Vec<String> = Vec::new();
        stack.push(target);
        let w = LockWalk {
            stack,
            current: String::new(),
            found: Vec::new(),
            seen: 0,
            limit,
            finished: !windows || limit == 0,
        };
        assert(w.state().stack =~= seq![target@]);
        assert(w.state().found =~= Seq::<Seq<char>>::empty());
        w
    }

    /// The next path to probe, or `None` once the walk is over.
    pub fn next_path(&mut self) -> (r: Option<String>)
        requires
            old(self).wf(),
        ensures
            final(self).wf(),
            final(self).state().found == old(self).state().found,
            final(self).state().limit == old(self).state().limit,
            old(self).state().finished ==> r is None && final(self).state() == old(self).state(),
            !old(self).state().finished && old(self).state().stack.len() == 0 ==> r is None
                && final(self).state() == (WalkState { finished: true, ..old(self).state() }),
            !old(self).state().finished && old(self).state().stack.len() > 0 ==> {
                let s = old(self).state();
                let popped = WalkState {
                    stack: s.stack.drop_last(),
                    seen: s.seen + 1,
                    ..s
                };
                if s.seen + 1 > MAX_PROBE {
                    r is None && final(self).state() == (WalkState { finished: true, ..popped })
                } else {
                    opt_seq(r) == Some(s.stack.last()) && final(self).state() == (WalkState {
                        current: s.stack.last(),
                        ..popped
                    })
                }
            },
            r is Some ==> final(self).state().seen <= MAX_PROBE,
    {
        if self.finished {
            return None;
        }
        let ghost before = self.state();
        match self.stack.pop() {
            None => {
                self.finished = true;
                None
            },
            Some(path) => {
                assert(views(self.stack@) =~= before.stack.drop_last());
                self.seen = self.seen + 1;
                if self.seen > MAX_PROBE {
                    self.finished = true;
                    None
                } else {
                    self.current = owned(path.as_str());
                    Some(path)
                }
            },
        }
    }

    /// Takes in what probing the path handed out last found.
    pub fn record(&mut self, probe: Probe)
        requires
            old(self).wf(),
        ensures
            final(self).wf(),
            final(self).state().seen == old(self).state().seen,
            final(self).state().limit == old(self).state().limit,
            final(self).state() == match probe {
                Probe::Directory(Some(entries)) => if old(self).state().finished {
                    old(self).state()
                } else {
                    WalkState { stack: old(self).state().stack + views(entries@), ..old(self).state() }
                },
                Probe::Directory(None) => old(self).state(),
                Probe::File(locked) => if old(self).state().finished || !locked {
                    old(self).state()
                } else {
                    let found = old(self).state().found.push(old(self).state().current);
                    WalkState {
                        found,
                        finished: found.len() >= old(self).state().limit,
                        ..old(self).state()
                    }
                },
            },
    {
        if self.finished {
            return;
        }
        let ghost before = self.state();
        match probe {
            Probe::Directory(Some(entries)) => {
                let mut i: usize = 0;
                while i < entries.len()
                    invariant
                        i <= entries@.len(),
                        self.found == old(self).found,
                        self.current == old(self).current,
                        self.seen == old(self).seen,
                        self.limit == old(self).limit,
                        self.finished == old(self).finished,
                        views(self.stack@) == before.stack + views(entries@).take(i as int),
                    decreases entries@.len() - i,
                {
                    let ghost st = views(self.stack@);
                    let c = entries[i].clone();
                    self.stack.push(c);
                    assert(views(self.stack@) =~= st.push(c@));
                    i = i + 1;
                    assert(views(entries@).take(i as int) =~= views(entries@).take(i - 1).push(
                        entries@[i - 1]@,
                    ));
                }
                assert(views(entries@).take(entries@.len() as int) =~= views(entries@));
            },
            Probe::Directory(None) => {},
            Probe::File(locked) => {
                if locked {
                    let ghost fv = views(self.found@);
                    let held = owned(self.current.as_str());
                    self.found.push(held);
                    assert(views(self.found@) =~= fv.push(self.current@));
                    if self.found.len() >= self.limit {
                        self.finished = true;
                    }
                }
            },
        }
    }

    /// The held files found.
    pub fn into_found(self) -> (found: Vec<String>)
        requires
            self.wf(),
        ensures
            views(found@) == self.state().found,
            found@.len() <= self.state().limit,
    {
        self.found
    }

    /// The first held file found, if any.
    pub fn first(self) -> (first: Option<String>)
        requires
            self.wf(),
        ensures
            opt_seq(first) == if self.state().found.len() > 0 {
                Some(self.state().found[0])
            } else {
                None::<Seq<char>>
            },
    {
        let mut found = self.found;
        if found.len() > 0 {
            Some(found.remove(0))
        } else {
            None
        }
    }
}

/// Starts the search for files at or under `target` that another process is
/// holding open, up to `limit` of them.
pub fn locked_paths(target: String, limit: usize, windows: bool) -> (w: LockWalk)
    ensures
        w.wf(),
        w.state() == (WalkState {
            stack: seq![target@],
            current: Seq::empty(),
            found: Seq::empty(),
            seen: 0,
            limit: limit as nat,
            finished: !windows || limit == 0,
        }),
{
    LockWalk::start(target, limit, windows)
}

/// Starts the search for the first file at or under `target` that another
/// process holds open; cheap, since it stops at the first hit.
pub fn first_locked(target: String, windows: bool) -> (w: LockWalk)
    ensures
        w.wf(),
        w.state() == (WalkState {
            stack: seq![target@],
            current: Seq::empty(),
            found: Seq::empty(),
            seen: 0,
            limit: 1,
            finished: !windows,
        }),
{
    LockWalk::start(target, 1, windows)
}

// ---------------------------------------------------------------------------
// Naming a process
// ---------------------------------------------------------------------------

/// A running process, as far as naming a holder needs it.
pub struct ProcessInfo {
    pub name: String,
    pub pid: u64,
    /// The executable's path; empty when unknown.
    pub exe: String,
}

/// How a process is named in a report: `name (pid N)`.
pub open spec fn process_label(p: ProcessInfo) -> Seq<char> {
    p.name@ + " (pid "@ + decimal(p.pid as nat) + ")"@
}

/// The first process whose executable lives under `dir`.
pub open spec fn process_in(processes: Seq<ProcessInfo>, dir: Seq<char>, windows: bool) -> Option<
    Seq<char>,
>
    decreases processes.len(),
{
    if processes.len() == 0 {
        None
    } else if starts_with(processes[0].exe@, dir, windows) {
        Some(process_label(processes[0]))
    } else {
        process_in(processes.drop_first(), dir, windows)
    }
}

/// A running process whose executable lives under `dir`, if there is one.
///
/// Bounding the search to the game's own folder is what keeps it from blaming
/// an unrelated program that happens to run from the same drive.
pub fn process_under(processes: &Vec<ProcessInfo>, dir: &str, windows: bool) -> (r: Option<String>)
    ensures
        opt_seq(r) == process_in(processes@, dir@, windows),
{
    let mut i: usize = 0;
    assert(processes@.skip(0) == processes@);
    while i < processes.len()
        invariant
            i <= processes@.len(),
            process_in(processes@, dir@, windows) == process_in(processes@.skip(i as int), dir@, windows),
        decreases processes@.len() - i,
    {
        assert(processes@.skip(i as int).drop_first() =~= processes@.skip(i + 1));
        assert(processes@.skip(i as int)[0] == processes@[i as int]);
        let p = &processes[i];
        if crate::paths::path_starts_with(p.exe.as_str(), dir, windows) {
            let mut s = owned(p.name.as_str());
            push_str(&mut s, " (pid ");
            push_decimal(&mut s, p.pid as u128);
            push_str(&mut s, ")");
            return Some(s);
        }
        i = i + 1;
    }
    None
}

// ---------------------------------------------------------------------------
// The report
// ---------------------------------------------------------------------------

/// `path` shown against the `target` it was found under, so a folder's report
/// reads as a list of names rather than of near-identical absolute paths.
pub open spec fn relative_to(path: Seq<char>, target: Seq<char>, windows: bool) -> Seq<char> {
    match strip_prefix(path, target, windows) {
        Some(short) => short,
        None => {
            let base = match parent(target, windows) {
                Some(p) => p,
                None => target,
            };
            match strip_prefix(path, base, windows) {
                Some(short) => short,
                None => path,
            }
        },
    }
}

/// `path` shown against the `target` it was found under.
pub fn relative(path: &str, target: &str, windows: bool) -> (s: String)
    ensures
        s@ == relative_to(path@, target@, windows),
{
    match path_strip_prefix(path, target, windows) {
        Some(short) => short,
        None => {
            let base = match path_parent(target, windows) {
                Some(p) => p,
                None => owned(target),
            };
            match path_strip_prefix(path, base.as_str(), windows) {
                Some(short) => short,
                None => owned(path),
            }
        },
    }
}

/// What the filesystem reported about the path, without following links.
pub enum Metadata {
    /// No metadata, for this reason.
    Missing(String),
    /// The path exists.
    Present {
        symlink: bool,
        dir: bool,
        len: u64,
        readonly: bool,
        /// The Windows file attributes, where there are any.
        attributes: Option<u32>,
    },
}

/// The state of the path as the filesystem reports it.
pub open spec fn description(m: Metadata) -> Seq<char> {
    match m {
        Metadata::Missing(e) => "no metadata ("@ + e@ + ")"@,
        Metadata::Present { symlink, dir, len, readonly, attributes } => (if symlink {
            "symlink"@
        } else if dir {
            "folder"@
        } else {
            "file"@
        }) + ", "@ + decimal(len as nat) + " bytes"@ + (if readonly {
            ", read-only"@
        } else {
            Seq::empty()
        }) + match attributes {
            Some(a) => ", attributes 0x"@ + pad_left(in_base(a as nat, 16), 8, '0'),
            None => Seq::empty(),
        },
    }
}

/// The state of the path as the filesystem reports it.
pub fn describe(m: &Metadata) -> (s: String)
    ensures
        s@ == description(*m),
{
    match m {
        Metadata::Missing(e) => {
            let mut s = owned("no metadata (");
            push_str(&mut s, e.as_str());
            push_str(&mut s, ")");
            s
        },
        Metadata::Present { symlink, dir, len, readonly, attributes } => {
            let mut s = if *symlink {
                owned("symlink")
            } else if *dir {
                owned("folder")
            } else {
                owned("file")
            };
            push_str(&mut s, ", ");
            push_decimal(&mut s, *len as u128);
            push_str(&mut s, " bytes");
            if *readonly {
                push_str(&mut s, ", read-only");
            }
            match attributes {
                Some(a) => {
                    push_str(&mut s, ", attributes 0x");
                    push_padded(&mut s, *a as u128, 16, 8);
                },
                None => {},
            }
            assert(s@ =~= description(*m));
            s
        },
    }
}

/// Renaming disturbs the path, so it is worth trying only when no held file
/// was found: that is when a lock and a permissions problem still look alike.
pub fn rename_probe_needed(locked: &Vec<String>) -> (b: bool)
    ensures
        b == (locked@.len() == 0),
{
    locked.len() == 0
}

/// The name the rename probe borrows: the file name with a marker and a
/// stamp added, so it cannot collide with a real file.
pub fn probe_name(file_name: &str, stamp: u128) -> (s: String)
    ensures
        s@ == file_name@ + ".forest-ear-probe-"@ + decimal(stamp as nat),
{
    let mut s = owned(file_name);
    push_str(&mut s, ".forest-ear-probe-");
    push_decimal(&mut s, stamp);
    s
}

/// What came of renaming the path aside and back.
pub enum RenameOutcome {
    /// Renamed and restored: nothing is holding the name.
    Allowed,
    /// Refused outright, for this reason.
    Refused(String),
    /// Renamed, but could not be put back: the path now lives here.
    Stranded(String),
}

/// What the probes found about a failed delete.
pub enum Findings {
    /// Nothing holds the path open; the rename probe gave this.
    Unlocked(RenameOutcome),
    /// These paths are held open, and this process is the likely holder.
    Locked { paths: Vec<String>, holder: Option<String> },
}

/// The verdict when nothing holds the path open.
pub open spec fn unlocked_verdict(target: Seq<char>, rename: RenameOutcome) -> Seq<char> {
    match rename {
        RenameOutcome::Allowed => "\n\nNothing has it open and renaming it works, so neither a lock nor the folder's permissions explain this. Suspect something that blocks deletes specifically \u{2014} antivirus, or Windows' controlled folder access."@,
        RenameOutcome::Refused(e) => "\n\nNothing has it open, and renaming it is refused too ("@ + e@
            + "). That points at permissions on the file or its parent folder, not at the game server."@,
        RenameOutcome::Stranded(probe) => "\n\n**A diagnostic rename could not be undone: the path is now "@
            + probe@ + " and needs moving back to "@ + target + " by hand.**"@,
    }
}

/// How many held files the report speaks of.
pub open spec fn held_count(n: nat) -> Seq<char> {
    if n == 1 {
        "it"@
    } else {
        (if n == MAX_REPORTED {
            "at least "@
        } else {
            Seq::empty()
        }) + decimal(n) + " files under it"@
    }
}

/// The list of held paths, one line each.
pub open spec fn held_lines(paths: Seq<Seq<char>>, target: Seq<char>, windows: bool) -> Seq<char>
    decreases paths.len(),
{
    if paths.len() == 0 {
        Seq::empty()
    } else {
        held_lines(paths.drop_last(), target, windows) + "\n- `"@ + relative_to(
            paths.last(),
            target,
            windows,
        ) + "`"@
    }
}

/// The verdict when files are held open.
pub open spec fn locked_verdict(
    paths: Seq<Seq<char>>,
    holder: Option<Seq<char>>,
    target: Seq<char>,
    windows: bool,
) -> Seq<char> {
    "\n\nAnother process is holding "@ + held_count(paths.len()) + " open without permitting deletes, which is what Windows reports as \"Access is denied\". This is a lock, not a permissions problem.\n\nHeld open:"@
        + held_lines(paths, target, windows) + match holder {
        Some(p) => "\n\n`"@ + p
            + "` is running out of the game folder and is the likely holder. Stop it and try again."@,
        None => "\n\nNo process is running out of the game folder, so the holder is something else \u{2014} check what has the save open before retrying."@,
    }
}

/// The raw OS error code, or `none`.
pub open spec fn code_text(code: Option<i32>) -> Seq<char> {
    match code {
        Some(c) => signed_decimal(c as int),
        None => "none"@,
    }
}

/// The full report before clipping.
pub open spec fn full_report(
    target: Seq<char>,
    err: Seq<char>,
    code: Option<i32>,
    findings: Findings,
    metadata: Metadata,
    windows: bool,
) -> Seq<char> {
    "Could not delete "@ + target + ": "@ + err + match findings {
        Findings::Unlocked(rename) => unlocked_verdict(target, rename),
        Findings::Locked { paths, holder } => locked_verdict(
            views(paths@),
            opt_seq(holder),
            target,
            windows,
        ),
    } + "\n\nDetails: os error "@ + code_text(code) + "; "@ + description(metadata)
}

fn push_unlocked_verdict(out: &mut String, target: &str, rename: RenameOutcome)
    ensures
        final(out)@ == old(out)@ + unlocked_verdict(target@, rename),
{
    let ghost start = out@;
    match rename {
        RenameOutcome::Allowed => {
            push_str(out, "\n\nNothing has it open and renaming it works, so neither a lock nor the folder's permissions explain this. Suspect something that blocks deletes specifically \u{2014} antivirus, or Windows' controlled folder access.");
        },
        RenameOutcome::Refused(e) => {
            push_str(out, "\n\nNothing has it open, and renaming it is refused too (");
            push_str(out, e.as_str());
            push_str(out, "). That points at permissions on the file or its parent folder, not at the game server.");
            assert(out@ =~= start + unlocked_verdict(target@, RenameOutcome::Refused(e)));
        },
        RenameOutcome::Stranded(probe) => {
            push_str(out, "\n\n**A diagnostic rename could not be undone: the path is now ");
            push_str(out, probe.as_str());
            push_str(out, " and needs moving back to ");
            push_str(out, target);
            push_str(out, " by hand.**");
            assert(out@ =~= start + unlocked_verdict(target@, RenameOutcome::Stranded(probe)));
        },
    }
}

fn push_held_count(out: &mut String, n: usize)
    ensures
        final(out)@ == old(out)@ + held_count(n as nat),
{
    let ghost start = out@;
    if n == 1 {
        push_str(out, "it");
    } else {
        if n == MAX_REPORTED {
            push_str(out, "at least ");
        }
        push_decimal(out, n as u128);
        push_str(out, " files under it");
        assert(out@ =~= start + held_count(n as nat));
    }
}

fn push_locked_verdict(
    out: &mut String,
    paths: &Vec<String>,
    holder: &Option<String>,
    target: &str,
    windows: bool,
)
    ensures
        final(out)@ == old(out)@ + locked_verdict(views(paths@), opt_seq(*holder), target@, windows),
{
    let ghost start = out@;
    push_str(out, "\n\nAnother process is holding ");
    push_held_count(out, paths.len());
    push_str(out, " open without permitting deletes, which is what Windows reports as \"Access is denied\". This is a lock, not a permissions problem.\n\nHeld open:");
    let ghost before_lines = out@;
    let mut i: usize = 0;
    while i < paths.len()
        invariant
            i <= paths@.len(),
            out@ == before_lines + held_lines(views(paths@).take(i as int), target@, windows),
        decreases paths@.len() - i,
    {
        let ghost prefix = views(paths@).take((i + 1) as int);
        assert(prefix.drop_last() =~= views(paths@).take(i as int));
        assert(prefix.last() == paths@[i as int]@);
        push_str(out, "\n- `");
        let short = relative(paths[i].as_str(), target, windows);
        push_str(out, short.as_str());
        push_str(out, "`");
        i = i + 1;
    }
    assert(views(paths@).take(paths@.len() as int) =~= views(paths@));
    let ghost after_lines = out@;
    match holder {
        Some(p) => {
            push_str(out, "\n\n`");
            push_str(out, p.as_str());
            push_str(out, "` is running out of the game folder and is the likely holder. Stop it and try again.");
        },
        None => {
            push_str(out, "\n\nNo process is running out of the game folder, so the holder is something else \u{2014} check what has the save open before retrying.");
        },
    }
    assert(out@ =~= start + locked_verdict(views(paths@), opt_seq(*holder), target@, windows));
}

fn push_details(out: &mut String, code: Option<i32>, metadata: &Metadata)
    ensures
        final(out)@ == old(out)@ + "\n\nDetails: os error "@ + code_text(code) + "; "@
            + description(*metadata),
{
    let ghost start = out@;
    push_str(out, "\n\nDetails: os error ");
    match code {
        Some(c) => push_signed(out, c as i64),
        None => push_str(out, "none"),
    }
    push_str(out, "; ");
    let d = describe(metadata);
    push_str(out, d.as_str());
    assert(out@ =~= start + "\n\nDetails: os error "@ + code_text(code) + "; "@ + description(
        *metadata,
    ));
}

/// Explain a failed delete of `target` from what the probes found just now.
///
/// `err` is the error as displayed and `code` its raw OS error code. The
/// report is clipped to `MAX_MESSAGE` characters.
pub fn diagnose(
    target: &str,
    err: &str,
    code: Option<i32>,
    findings: Findings,
    metadata: &Metadata,
    windows: bool,
) -> (report: String)
    ensures
        report@ == clip(
            full_report(target@, err@, code, findings, *metadata, windows),
            MAX_MESSAGE as nat,
        ),
        report@.len() <= MAX_MESSAGE,
{
    let ghost all = findings;
    let mut out = owned("Could not delete ");
    push_str(&mut out, target);
    push_str(&mut out, ": ");
    push_str(&mut out, err);
    let ghost head = out@;
    match findings {
        Findings::Unlocked(rename) => {
            push_unlocked_verdict(&mut out, target, rename);
        },
        Findings::Locked { paths, holder } => {
            push_locked_verdict(&mut out, &paths, &holder, target, windows);
        },
    }
    let ghost verdict = out@;
    push_details(&mut out, code, metadata);
    assert(out@ =~= full_report(target@, err@, code, all, *metadata, windows));
    clip_chars(out.as_str(), MAX_MESSAGE)
}

/// However the probes came out, the report keeps the raw error: it opens with
/// the target and the error as given whenever that opening fits the limit.
pub proof fn lemma_diagnosis_keeps_the_error(
    target: Seq<char>,
    err: Seq<char>,
    code: Option<i32>,
    findings: Findings,
    metadata: Metadata,
    windows: bool,
)
    requires
        ("Could not delete "@ + target + ": "@ + err).len() < MAX_MESSAGE,
    ensures
        ({
            let head = "Could not delete "@ + target + ": "@ + err;
            let report = clip(full_report(target, err, code, findings, metadata, windows), MAX_MESSAGE as nat);
            report.len() >= head.len() && report.take(head.len() as int) == head
        }),
{
    let head = "Could not delete "@ + target + ": "@ + err;
    let full = full_report(target, err, code, findings, metadata, windows);
    let rest = full.skip(head.len() as int);
    assert(full.take(head.len() as int) =~= head);
    let report = clip(full, MAX_MESSAGE as nat);
    if full.len() > MAX_MESSAGE {
        assert(report.take(head.len() as int) =~= full.take(head.len() as int));
    }
}

} // verus!
