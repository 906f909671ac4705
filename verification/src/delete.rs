//! Deleting a save folder, and putting a deleted one back.
//!
//! A delete posts the folder as a backup before anything is removed, so the
//! data is still on disk if the upload fails. It refuses a shortcut entry,
//! whose removal would wipe the game folder it points at, and it refuses
//! while a file inside is held open, before anything is backed up or
//! deleted. An undelete puts a backup back only where nothing exists any
//! more: overwriting live data is the restore's job, which takes a safety
//! copy first. As with a restore, the steps that talk to Discord or touch the
//! disk happen outside: a flow says what to do next and is told how it went.

use vstd::prelude::*;
use crate::restore::done_view;
use crate::saves::{parse_backup_path, recorded_path, EmbedInfo};
use crate::steamcmd::result_view;
use crate::text::{opt_view, owned, push_str};

verus! {

// ---------------------------------------------------------------------------
// Deleting
// ---------------------------------------------------------------------------

/// The title of the backup a delete posts.
pub const DELETED_TITLE: &'static str = "Deleted";

/// The description a delete's backup carries when none is given.
pub const DELETED_NOTE: &'static str = "Deleted from disk. Use the Undelete action on this message to put it back.";

/// What a delete needs done next.
pub enum DeleteAction {
    /// Reply with this and stop, having backed up and deleted nothing.
    Refuse(String),
    /// Find out whether the last segment of this user-facing path is a
    /// shortcut (a `.lnk` file or a link).
    CheckShortcut(String),
    /// Resolve this user-facing path to a folder.
    Resolve(String),
    /// Find the game folder of this user-facing path: its first segment,
    /// resolved.
    FindGameDir(String),
    /// Find the first file at or under this folder that another process
    /// holds open.
    FindLocked(String),
    /// Find a process running out of this game folder.
    FindHolder(String),
    /// Post a backup of the folder `target`, recorded under `path`, titled
    /// `DELETED_TITLE`, with this description.
    PostCopy { path: String, target: String, description: String },
    /// Remove the folder `target`, explaining a failure with the help of the
    /// game folder, if there is one.
    Remove { target: String, game_dir: Option<String> },
    /// Say this and stop: the delete is done.
    Finish(String),
    /// Stop with this error.
    Fail(String),
}

/// How the last action of a delete went.
pub enum DeleteEvent {
    Shortcut(Result<bool, String>),
    Resolved(Result<String, String>),
    GameDir(Option<String>),
    Locked(Option<String>),
    Holder(Option<String>),
    Posted(Result<(), String>),
    Removed(Result<(), String>),
}

/// Where a delete stands.
pub enum DeletePhase {
    AwaitShortcut,
    AwaitResolve,
    AwaitGameDir,
    AwaitLocked,
    AwaitHolder,
    AwaitCopy,
    AwaitRemove,
    Finished,
}

/// A delete's state.
pub struct DeleteState {
    pub path: Seq<char>,
    pub description: Seq<char>,
    pub target: Seq<char>,
    pub game_dir: Option<Seq<char>>,
    /// The held file found, once one is.
    pub locked: Seq<char>,
    pub phase: DeletePhase,
}

/// A delete action as text.
pub enum DeleteDoing {
    Refuse(Seq<char>),
    CheckShortcut(Seq<char>),
    Resolve(Seq<char>),
    FindGameDir(Seq<char>),
    FindLocked(Seq<char>),
    FindHolder(Seq<char>),
    PostCopy(Seq<char>, Seq<char>, Seq<char>),
    Remove(Seq<char>, Option<Seq<char>>),
    Finish(Seq<char>),
    Fail(Seq<char>),
}

/// A delete event as text.
pub enum DeleteHeard {
    Shortcut(Result<bool, Seq<char>>),
    Resolved(Result<Seq<char>, Seq<char>>),
    GameDir(Option<Seq<char>>),
    Locked(Option<Seq<char>>),
    Holder(Option<Seq<char>>),
    Posted(Result<(), Seq<char>>),
    Removed(Result<(), Seq<char>>),
}

/// A delete action as text.
pub open spec fn delete_doing(a: DeleteAction) -> DeleteDoing {
    match a {
        DeleteAction::Refuse(m) => DeleteDoing::Refuse(m@),
        DeleteAction::CheckShortcut(p) => DeleteDoing::CheckShortcut(p@),
        DeleteAction::Resolve(p) => DeleteDoing::Resolve(p@),
        DeleteAction::FindGameDir(p) => DeleteDoing::FindGameDir(p@),
        DeleteAction::FindLocked(t) => DeleteDoing::FindLocked(t@),
        DeleteAction::FindHolder(g) => DeleteDoing::FindHolder(g@),
        DeleteAction::PostCopy { path, target, description } => DeleteDoing::PostCopy(
            path@,
            target@,
            description@,
        ),
        DeleteAction::Remove { target, game_dir } => DeleteDoing::Remove(target@, opt_view(game_dir)),
        DeleteAction::Finish(m) => DeleteDoing::Finish(m@),
        DeleteAction::Fail(e) => DeleteDoing::Fail(e@),
    }
}

/// A delete event as text.
pub open spec fn delete_heard(e: DeleteEvent) -> DeleteHeard {
    match e {
        DeleteEvent::Shortcut(r) => DeleteHeard::Shortcut(
            match r {
                Ok(b) => Ok(b),
                Err(e) => Err(e@),
            },
        ),
        DeleteEvent::Resolved(r) => DeleteHeard::Resolved(result_view(r)),
        DeleteEvent::GameDir(g) => DeleteHeard::GameDir(opt_view(g)),
        DeleteEvent::Locked(l) => DeleteHeard::Locked(opt_view(l)),
        DeleteEvent::Holder(h) => DeleteHeard::Holder(opt_view(h)),
        DeleteEvent::Posted(r) => DeleteHeard::Posted(done_view(r)),
        DeleteEvent::Removed(r) => DeleteHeard::Removed(done_view(r)),
    }
}

/// The refusal for a path whose last segment is a shortcut.
pub open spec fn shortcut_refusal(path: Seq<char>) -> Seq<char> {
    "`"@ + path
        + "` is a shortcut. Deleting it would remove everything it points at, not the shortcut itself \u{2014} refusing. Delete something inside it instead, like `"@
        + path + "/<folder>`."@
}

/// The refusal while `locked` is held open, naming the likely holder.
pub open spec fn locked_refusal(path: Seq<char>, locked: Seq<char>, holder: Option<Seq<char>>) -> Seq<
    char,
> {
    "`"@ + path + "` can't be deleted right now: `"@ + locked
        + "` is open in another process, so Windows will refuse to remove it."@ + match holder {
        Some(p) => " `"@ + p + "` is the likely holder."@,
        None => Seq::empty(),
    } + " Stop the game server and try again \u{2014} nothing has been backed up or deleted."@
}

/// How a delete of `path`, with an optional `description`, starts.
pub open spec fn delete_begin(path: Seq<char>, description: Option<Seq<char>>) -> (
    DeleteState,
    DeleteDoing,
) {
    (
        DeleteState {
            path,
            description: match description {
                Some(d) => d,
                None => DELETED_NOTE@,
            },
            target: Seq::empty(),
            game_dir: None,
            locked: Seq::empty(),
            phase: DeletePhase::AwaitShortcut,
        },
        DeleteDoing::CheckShortcut(path),
    )
}

/// The event `h` is the kind the delete is waiting for.
pub open spec fn delete_fits(s: DeleteState, h: DeleteHeard) -> bool {
    match s.phase {
        DeletePhase::AwaitShortcut => h is Shortcut,
        DeletePhase::AwaitResolve => h is Resolved,
        DeletePhase::AwaitGameDir => h is GameDir,
        DeletePhase::AwaitLocked => h is Locked,
        DeletePhase::AwaitHolder => h is Holder,
        DeletePhase::AwaitCopy => h is Posted,
        DeletePhase::AwaitRemove => h is Removed,
        DeletePhase::Finished => false,
    }
}

/// One step of a delete: the state after event `h`, and what to do next.
pub open spec fn delete_step(s: DeleteState, h: DeleteHeard) -> (DeleteState, DeleteDoing) {
    let finished = DeleteState { phase: DeletePhase::Finished, ..s };
    match h {
        DeleteHeard::Shortcut(Ok(true)) => (finished, DeleteDoing::Refuse(shortcut_refusal(s.path))),
        DeleteHeard::Shortcut(Ok(false)) => (
            DeleteState { phase: DeletePhase::AwaitResolve, ..s },
            DeleteDoing::Resolve(s.path),
        ),
        DeleteHeard::Shortcut(Err(e)) => (finished, DeleteDoing::Fail(e)),
        DeleteHeard::Resolved(Ok(t)) => (
            DeleteState { target: t, phase: DeletePhase::AwaitGameDir, ..s },
            DeleteDoing::FindGameDir(s.path),
        ),
        DeleteHeard::Resolved(Err(e)) => (finished, DeleteDoing::Fail(e)),
        DeleteHeard::GameDir(g) => (
            DeleteState { game_dir: g, phase: DeletePhase::AwaitLocked, ..s },
            DeleteDoing::FindLocked(s.target),
        ),
        DeleteHeard::Locked(None) => (
            DeleteState { phase: DeletePhase::AwaitCopy, ..s },
            DeleteDoing::PostCopy(s.path, s.target, s.description),
        ),
        DeleteHeard::Locked(Some(l)) => match s.game_dir {
            Some(g) => (
                DeleteState { locked: l, phase: DeletePhase::AwaitHolder, ..s },
                DeleteDoing::FindHolder(g),
            ),
            None => (finished, DeleteDoing::Refuse(locked_refusal(s.path, l, None))),
        },
        DeleteHeard::Holder(p) => (finished, DeleteDoing::Refuse(locked_refusal(s.path, s.locked, p))),
        DeleteHeard::Posted(Ok(())) => (
            DeleteState { phase: DeletePhase::AwaitRemove, ..s },
            DeleteDoing::Remove(s.target, s.game_dir),
        ),
        DeleteHeard::Posted(Err(e)) => (finished, DeleteDoing::Fail(e)),
        DeleteHeard::Removed(Ok(())) => (finished, DeleteDoing::Finish(
            "Deleted folder `"@ + s.path + "`."@,
        )),
        DeleteHeard::Removed(Err(e)) => (finished, DeleteDoing::Fail(e)),
    }
}

/// A delete removes a folder only once it has been posted as a backup: the
/// removal is asked for only right after the upload of that same folder
/// succeeded, the upload only right after no held file was found in it, and
/// a held file, or a shortcut as the last segment, ends the delete with a
/// refusal before anything is uploaded or removed; any failure ends it too.
pub proof fn lemma_delete_removes_only_after_upload(s: DeleteState, h: DeleteHeard)
    requires
        delete_fits(s, h),
    ensures
        ({
            let (next, d) = delete_step(s, h);
            &&& d matches DeleteDoing::Remove(t, _) ==> t == s.target && s.phase is AwaitCopy && (
            h matches DeleteHeard::Posted(Ok(_)))
            &&& d matches DeleteDoing::PostCopy(p, t, _) ==> p == s.path && t == s.target && h
                == DeleteHeard::Locked(None)
            &&& h matches DeleteHeard::Locked(Some(l)) ==> {
                ||| d == DeleteDoing::Refuse(locked_refusal(s.path, l, None))
                ||| d is FindHolder && next.phase is AwaitHolder
            }
            &&& s.phase is AwaitHolder ==> d == DeleteDoing::Refuse(
                locked_refusal(s.path, s.locked, h->Holder_0),
            )
            &&& h == DeleteHeard::Shortcut(Ok(true)) ==> d == DeleteDoing::Refuse(
                shortcut_refusal(s.path),
            )
            &&& next.phase is AwaitCopy ==> d is PostCopy
            &&& next.phase is AwaitRemove ==> d is Remove
            &&& d is Refuse || d is Fail || d is Finish ==> next.phase is Finished
            &&& next.phase is Finished ==> forall|h2: DeleteHeard| !delete_fits(next, h2)
        }),
{
}

/// Deletes a save folder, one step at a time.
pub struct DeleteFlow {
    path: String,
    description: String,
    target: String,
    game_dir: Option<String>,
    locked: String,
    phase: DeletePhase,
}

fn copy_opt(o: &Option<String>) -> (r: Option<String>)
    ensures
        opt_view(r) == opt_view(*o),
{
    match o {
        Some(s) => Some(owned(s.as_str())),
        None => None,
    }
}

impl DeleteFlow {
    pub closed spec fn state(&self) -> DeleteState {
        DeleteState {
            path: self.path@,
            description: self.description@,
            target: self.target@,
            game_dir: opt_view(self.game_dir),
            locked: self.locked@,
            phase: self.phase,
        }
    }

    /// Starts deleting `path`, posting it with `description`, or
    /// `DELETED_NOTE` when none is given.
    pub fn start(path: &str, description: Option<&str>) -> (r: (DeleteFlow, DeleteAction))
        ensures
            (r.0.state(), delete_doing(r.1)) == delete_begin(path@, crate::steamcmd::opt_str(description)),
    {
        let description = match description {
            Some(d) => owned(d),
            None => owned(DELETED_NOTE),
        };
        (
            DeleteFlow {
                path: owned(path),
                description,
                target: String::new(),
                game_dir: None,
                locked: String::new(),
                phase: DeletePhase::AwaitShortcut,
            },
            DeleteAction::CheckShortcut(owned(path)),
        )
    }

    /// Whether `event` is the kind this delete is waiting for.
    pub fn expects(&self, event: &DeleteEvent) -> (b: bool)
        ensures
            b == delete_fits(self.state(), delete_heard(*event)),
    {
        match self.phase {
            DeletePhase::AwaitShortcut => matches!(event, DeleteEvent::Shortcut(_)),
            DeletePhase::AwaitResolve => matches!(event, DeleteEvent::Resolved(_)),
            DeletePhase::AwaitGameDir => matches!(event, DeleteEvent::GameDir(_)),
            DeletePhase::AwaitLocked => matches!(event, DeleteEvent::Locked(_)),
            DeletePhase::AwaitHolder => matches!(event, DeleteEvent::Holder(_)),
            DeletePhase::AwaitCopy => matches!(event, DeleteEvent::Posted(_)),
            DeletePhase::AwaitRemove => matches!(event, DeleteEvent::Removed(_)),
            DeletePhase::Finished => false,
        }
    }

    fn refuse_locked(&self, locked: &str, holder: &Option<String>) -> (m: String)
        ensures
            m@ == locked_refusal(self.path@, locked@, opt_view(*holder)),
    {
        let mut m = owned("`");
        push_str(&mut m, self.path.as_str());
        push_str(&mut m, "` can't be deleted right now: `");
        push_str(&mut m, locked);
        push_str(&mut m, "` is open in another process, so Windows will refuse to remove it.");
        let ghost mid = m@;
        match holder {
            Some(p) => {
                push_str(&mut m, " `");
                push_str(&mut m, p.as_str());
                push_str(&mut m, "` is the likely holder.");
            },
            None => {},
        }
        let ghost with_holder = m@;
        push_str(&mut m, " Stop the game server and try again \u{2014} nothing has been backed up or deleted.");
        assert(m@ =~= locked_refusal(self.path@, locked@, opt_view(*holder)));
        m
    }

    /// Takes how the last action went; the result says what to do next.
    pub fn advance(&mut self, event: DeleteEvent) -> (r: DeleteAction)
        requires
            delete_fits(old(self).state(), delete_heard(event)),
        ensures
            (final(self).state(), delete_doing(r)) == delete_step(old(self).state(), delete_heard(event)),
    {
        match event {
            DeleteEvent::Shortcut(Ok(true)) => {
                self.phase = DeletePhase::Finished;
                let mut m = owned("`");
                push_str(&mut m, self.path.as_str());
                push_str(&mut m, "` is a shortcut. Deleting it would remove everything it points at, not the shortcut itself \u{2014} refusing. Delete something inside it instead, like `");
                push_str(&mut m, self.path.as_str());
                push_str(&mut m, "/<folder>`.");
                DeleteAction::Refuse(m)
            },
            DeleteEvent::Shortcut(Ok(false)) => {
                self.phase = DeletePhase::AwaitResolve;
                DeleteAction::Resolve(owned(self.path.as_str()))
            },
            DeleteEvent::Resolved(Ok(t)) => {
                self.target = t;
                self.phase = DeletePhase::AwaitGameDir;
                DeleteAction::FindGameDir(owned(self.path.as_str()))
            },
            DeleteEvent::GameDir(g) => {
                self.game_dir = g;
                self.phase = DeletePhase::AwaitLocked;
                DeleteAction::FindLocked(owned(self.target.as_str()))
            },
            DeleteEvent::Locked(None) => {
                self.phase = DeletePhase::AwaitCopy;
                DeleteAction::PostCopy {
                    path: owned(self.path.as_str()),
                    target: owned(self.target.as_str()),
                    description: owned(self.description.as_str()),
                }
            },
            DeleteEvent::Locked(Some(l)) => {
                match &self.game_dir {
                    Some(g) => {
                        let g = owned(g.as_str());
                        self.locked = l;
                        self.phase = DeletePhase::AwaitHolder;
                        DeleteAction::FindHolder(g)
                    },
                    None => {
                        let m = self.refuse_locked(l.as_str(), &None);
                        self.phase = DeletePhase::Finished;
                        DeleteAction::Refuse(m)
                    },
                }
            },
            DeleteEvent::Holder(p) => {
                let m = self.refuse_locked(self.locked.as_str(), &p);
                self.phase = DeletePhase::Finished;
                DeleteAction::Refuse(m)
            },
            DeleteEvent::Posted(Ok(())) => {
                self.phase = DeletePhase::AwaitRemove;
                DeleteAction::Remove { target: owned(self.target.as_str()), game_dir: copy_opt(&self.game_dir) }
            },
            DeleteEvent::Removed(Ok(())) => {
                self.phase = DeletePhase::Finished;
                let mut m = owned("Deleted folder `");
                push_str(&mut m, self.path.as_str());
                push_str(&mut m, "`.");
                DeleteAction::Finish(m)
            },
            DeleteEvent::Shortcut(Err(e)) | DeleteEvent::Resolved(Err(e))
            | DeleteEvent::Posted(Err(e)) | DeleteEvent::Removed(Err(e)) => {
                self.phase = DeletePhase::Finished;
                DeleteAction::Fail(e)
            },
        }
    }
}

// ---------------------------------------------------------------------------
// Undeleting
// ---------------------------------------------------------------------------

/// What an undelete needs done next.
pub enum UndeleteAction {
    /// Reply with this and stop, having changed nothing.
    Refuse(String),
    /// Resolve this user-facing path, whose last segment need not exist: its
    /// parent is resolved and the last segment added.
    ResolveNew(String),
    /// Find out whether anything exists at this path.
    CheckExists(String),
    /// Download the backup's attachment.
    Download,
    /// Unpack the downloaded archive into this folder, creating it.
    Unpack(String),
    /// Say this and stop: the undelete is done.
    Finish(String),
    /// Stop with this error.
    Fail(String),
}

/// How the last action of an undelete went.
pub enum UndeleteEvent {
    Resolved(Result<String, String>),
    Exists(bool),
    Downloaded(Result<(), String>),
    Unpacked(Result<(), String>),
}

/// Where an undelete stands.
pub enum UndeletePhase {
    AwaitResolve,
    AwaitExists,
    AwaitDownload,
    AwaitUnpack,
    Finished,
}

/// An undelete's state.
pub struct UndeleteState {
    pub path: Seq<char>,
    pub target: Seq<char>,
    pub phase: UndeletePhase,
}

/// An undelete action as text.
pub enum UndeleteDoing {
    Refuse(Seq<char>),
    ResolveNew(Seq<char>),
    CheckExists(Seq<char>),
    Download,
    Unpack(Seq<char>),
    Finish(Seq<char>),
    Fail(Seq<char>),
}

/// An undelete event as text.
pub enum UndeleteHeard {
    Resolved(Result<Seq<char>, Seq<char>>),
    Exists(bool),
    Downloaded(Result<(), Seq<char>>),
    Unpacked(Result<(), Seq<char>>),
}

/// An undelete action as text.
pub open spec fn undelete_doing(a: UndeleteAction) -> UndeleteDoing {
    match a {
        UndeleteAction::Refuse(m) => UndeleteDoing::Refuse(m@),
        UndeleteAction::ResolveNew(p) => UndeleteDoing::ResolveNew(p@),
        UndeleteAction::CheckExists(t) => UndeleteDoing::CheckExists(t@),
        UndeleteAction::Download => UndeleteDoing::Download,
        UndeleteAction::Unpack(t) => UndeleteDoing::Unpack(t@),
        UndeleteAction::Finish(m) => UndeleteDoing::Finish(m@),
        UndeleteAction::Fail(e) => UndeleteDoing::Fail(e@),
    }
}

/// An undelete event as text.
pub open spec fn undelete_heard(e: UndeleteEvent) -> UndeleteHeard {
    match e {
        UndeleteEvent::Resolved(r) => UndeleteHeard::Resolved(result_view(r)),
        UndeleteEvent::Exists(b) => UndeleteHeard::Exists(b),
        UndeleteEvent::Downloaded(r) => UndeleteHeard::Downloaded(done_view(r)),
        UndeleteEvent::Unpacked(r) => UndeleteHeard::Unpacked(done_view(r)),
    }
}

/// How an undelete from a message with `embeds` and `attachments`
/// attachments starts: refused unless it is one of this bot's backups with
/// exactly one attachment, else by resolving the path the backup records.
pub open spec fn undelete_begin(embeds: Seq<EmbedInfo>, attachments: nat) -> (
    UndeleteState,
    UndeleteDoing,
) {
    let done = UndeleteState { path: Seq::empty(), target: Seq::empty(), phase: UndeletePhase::Finished };
    match recorded_path(embeds) {
        None => (
            done,
            UndeleteDoing::Refuse(
                "That isn't a backup message from this bot \u{2014} undelete only works on messages this bot posted."@,
            ),
        ),
        Some(path) => if attachments != 1 {
            (done, UndeleteDoing::Refuse("Expecting exactly one attachment"@))
        } else {
            (
                UndeleteState { path, target: Seq::empty(), phase: UndeletePhase::AwaitResolve },
                UndeleteDoing::ResolveNew(path),
            )
        },
    }
}

/// The event `h` is the kind the undelete is waiting for.
pub open spec fn undelete_fits(s: UndeleteState, h: UndeleteHeard) -> bool {
    match s.phase {
        UndeletePhase::AwaitResolve => h is Resolved,
        UndeletePhase::AwaitExists => h is Exists,
        UndeletePhase::AwaitDownload => h is Downloaded,
        UndeletePhase::AwaitUnpack => h is Unpacked,
        UndeletePhase::Finished => false,
    }
}

/// The refusal when something already exists at the path.
pub open spec fn exists_refusal(path: Seq<char>) -> Seq<char> {
    "`"@ + path
        + "` already exists \u{2014} refusing to overwrite it. Use the Restore action instead; it takes a backup of the current contents first."@
}

/// One step of an undelete: the state after event `h`, and what to do next.
pub open spec fn undelete_step(s: UndeleteState, h: UndeleteHeard) -> (UndeleteState, UndeleteDoing) {
    let finished = UndeleteState { phase: UndeletePhase::Finished, ..s };
    match h {
        UndeleteHeard::Resolved(Ok(t)) => (
            UndeleteState { target: t, phase: UndeletePhase::AwaitExists, ..s },
            UndeleteDoing::CheckExists(t),
        ),
        UndeleteHeard::Resolved(Err(e)) => (finished, UndeleteDoing::Fail(e)),
        UndeleteHeard::Exists(true) => (finished, UndeleteDoing::Refuse(exists_refusal(s.path))),
        UndeleteHeard::Exists(false) => (
            UndeleteState { phase: UndeletePhase::AwaitDownload, ..s },
            UndeleteDoing::Download,
        ),
        UndeleteHeard::Downloaded(Ok(())) => (
            UndeleteState { phase: UndeletePhase::AwaitUnpack, ..s },
            UndeleteDoing::Unpack(s.target),
        ),
        UndeleteHeard::Downloaded(Err(e)) => (
            finished,
            UndeleteDoing::Fail("Error downloading attachment: "@ + e),
        ),
        UndeleteHeard::Unpacked(Ok(())) => (finished, UndeleteDoing::Finish(
            "Undeleted folder `"@ + s.path + "`."@,
        )),
        UndeleteHeard::Unpacked(Err(e)) => (finished, UndeleteDoing::Fail(e)),
    }
}

/// An undelete never overwrites: something already at the path ends it with
/// a refusal before anything is downloaded, and it unpacks only into the
/// path it found empty, right after the download.
pub proof fn lemma_undelete_never_overwrites(s: UndeleteState, h: UndeleteHeard)
    requires
        undelete_fits(s, h),
    ensures
        ({
            let (next, d) = undelete_step(s, h);
            &&& h == UndeleteHeard::Exists(true) ==> d == UndeleteDoing::Refuse(exists_refusal(s.path))
                && next.phase is Finished
            &&& d is Download ==> h == UndeleteHeard::Exists(false)
            &&& next.phase is AwaitDownload ==> d is Download
            &&& d matches UndeleteDoing::Unpack(t) ==> t == s.target && s.phase is AwaitDownload && (
            h matches UndeleteHeard::Downloaded(Ok(_)))
            &&& !(h is Resolved) ==> next.target == s.target
            &&& next.phase is Finished ==> forall|h2: UndeleteHeard| !undelete_fits(next, h2)
        }),
{
}

/// Puts a deleted save folder back from a backup message, one step at a time.
pub struct UndeleteFlow {
    path: String,
    target: String,
    phase: UndeletePhase,
}

impl UndeleteFlow {
    pub closed spec fn state(&self) -> UndeleteState {
        UndeleteState { path: self.path@, target: self.target@, phase: self.phase }
    }

    /// Starts an undelete from a message with these embeds and this many
    /// attachments; the action says what to do first.
    pub fn start(embeds: &Vec<EmbedInfo>, attachments: usize) -> (r: (UndeleteFlow, UndeleteAction))
        ensures
            (r.0.state(), undelete_doing(r.1)) == undelete_begin(embeds@, attachments as nat),
    {
        let done = UndeleteFlow { path: String::new(), target: String::new(), phase: UndeletePhase::Finished };
        match parse_backup_path(embeds) {
            None => (
                done,
                UndeleteAction::Refuse(
                    owned(
                        "That isn't a backup message from this bot \u{2014} undelete only works on messages this bot posted.",
                    ),
                ),
            ),
            Some(path) => if attachments != 1 {
                (done, UndeleteAction::Refuse(owned("Expecting exactly one attachment")))
            } else {
                let first = owned(path.as_str());
                (
                    UndeleteFlow { path, target: String::new(), phase: UndeletePhase::AwaitResolve },
                    UndeleteAction::ResolveNew(first),
                )
            },
        }
    }

    /// Whether `event` is the kind this undelete is waiting for.
    pub fn expects(&self, event: &UndeleteEvent) -> (b: bool)
        ensures
            b == undelete_fits(self.state(), undelete_heard(*event)),
    {
        match self.phase {
            UndeletePhase::AwaitResolve => matches!(event, UndeleteEvent::Resolved(_)),
            UndeletePhase::AwaitExists => matches!(event, UndeleteEvent::Exists(_)),
            UndeletePhase::AwaitDownload => matches!(event, UndeleteEvent::Downloaded(_)),
            UndeletePhase::AwaitUnpack => matches!(event, UndeleteEvent::Unpacked(_)),
            UndeletePhase::Finished => false,
        }
    }

    /// Takes how the last action went; the result says what to do next.
    pub fn advance(&mut self, event: UndeleteEvent) -> (r: UndeleteAction)
        requires
            undelete_fits(old(self).state(), undelete_heard(event)),
        ensures
            (final(self).state(), undelete_doing(r)) == undelete_step(
                old(self).state(),
                undelete_heard(event),
            ),
    {
        match event {
            UndeleteEvent::Resolved(Ok(t)) => {
                let probe = owned(t.as_str());
                self.target = t;
                self.phase = UndeletePhase::AwaitExists;
                UndeleteAction::CheckExists(probe)
            },
            UndeleteEvent::Exists(true) => {
                self.phase = UndeletePhase::Finished;
                let mut m = owned("`");
                push_str(&mut m, self.path.as_str());
                push_str(&mut m, "` already exists \u{2014} refusing to overwrite it. Use the Restore action instead; it takes a backup of the current contents first.");
                UndeleteAction::Refuse(m)
            },
            UndeleteEvent::Exists(false) => {
                self.phase = UndeletePhase::AwaitDownload;
                UndeleteAction::Download
            },
            UndeleteEvent::Downloaded(Ok(())) => {
                self.phase = UndeletePhase::AwaitUnpack;
                UndeleteAction::Unpack(owned(self.target.as_str()))
            },
            UndeleteEvent::Downloaded(Err(e)) => {
                self.phase = UndeletePhase::Finished;
                let mut m = owned("Error downloading attachment: ");
                push_str(&mut m, e.as_str());
                UndeleteAction::Fail(m)
            },
            UndeleteEvent::Unpacked(Ok(())) => {
                self.phase = UndeletePhase::Finished;
                let mut m = owned("Undeleted folder `");
                push_str(&mut m, self.path.as_str());
                push_str(&mut m, "`.");
                UndeleteAction::Finish(m)
            },
            UndeleteEvent::Resolved(Err(e)) | UndeleteEvent::Unpacked(Err(e)) => {
                self.phase = UndeletePhase::Finished;
                UndeleteAction::Fail(e)
            },
        }
    }
}

} // verus!
