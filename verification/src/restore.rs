//! Restoring a save folder from a backup message.
//!
//! The folder's current contents are posted before anything is overwritten,
//! and the backup is unpacked into a staging folder beside it first. Only
//! then is the folder moved aside whole and the staging folder moved into its
//! place; if that move fails, the folder is moved back. So a failure at any
//! point leaves the folder as it was (as far as moving a folder back
//! succeeds), and every restore can be undone from the message it posts. The
//! steps that talk to Discord or touch the disk happen outside: a
//! `RestoreFlow` says what to do next (a `RestoreAction`) and is told how it
//! went (a `RestoreEvent`).

use vstd::prelude::*;
use crate::saves::{pre_restore_notice, restore_source, restore_target, restored_line, EmbedInfo};
use crate::text::{owned, push_str};

verus! {

/// What a restore needs done next.
pub enum RestoreAction {
    /// Reply with this and stop: the message cannot be restored from.
    Refuse(String),
    /// Resolve this user-facing path to a folder.
    Resolve(String),
    /// Download the backup's attachment.
    Download,
    /// Find out whether this folder is empty.
    CheckEmpty(String),
    /// Say this: the folder is empty, so there is nothing to save first.
    Notify(String),
    /// Post a backup of the folder `target`, recorded under `path`, as the
    /// safety copy.
    PostCopy { path: String, target: String },
    /// Find out whether neither of these paths exists.
    CheckClear { staging: String, aside: String },
    /// Create this staging folder and unpack the downloaded archive into it.
    Unpack(String),
    /// Rename the folder `target` to `aside`.
    MoveAside { target: String, aside: String },
    /// Rename the folder `staging` to `target`.
    MoveIn { staging: String, target: String },
    /// Rename the folder `aside` back to `target`.
    MoveBack { aside: String, target: String },
    /// Remove this folder and everything in it, if it exists.
    Discard(String),
    /// Say this and stop: the restore is done.
    Finish(String),
    /// Stop with this error.
    Fail(String),
}

/// How the last action went.
pub enum RestoreEvent {
    Resolved(Result<String, String>),
    Downloaded(Result<(), String>),
    Emptiness(Result<bool, String>),
    Notified(Result<(), String>),
    Posted(Result<(), String>),
    Clear(bool),
    Unpacked(Result<(), String>),
    MovedAside(Result<(), String>),
    MovedIn(Result<(), String>),
    MovedBack(Result<(), String>),
    Discarded(Result<(), String>),
}

/// Where a restore stands.
pub enum RestorePhase {
    AwaitResolve,
    AwaitDownload,
    AwaitEmptiness,
    AwaitNotice,
    AwaitCopy,
    AwaitClear,
    AwaitUnpack,
    AwaitAside,
    AwaitMoveIn,
    AwaitMoveBack,
    /// Removing the staging folder after a failure.
    AwaitCleanup,
    /// Removing the old contents after a success.
    AwaitDiscard,
    Finished,
}

/// A restore's state.
pub struct RestoreState {
    /// The user-facing path the backup records.
    pub path: Seq<char>,
    /// The folder that path resolved to, once it has.
    pub target: Seq<char>,
    /// The failure to report once the folder is put back and tidied up.
    pub error: Seq<char>,
    pub phase: RestorePhase,
}

/// An action as text.
pub enum Doing {
    Refuse(Seq<char>),
    Resolve(Seq<char>),
    Download,
    CheckEmpty(Seq<char>),
    Notify(Seq<char>),
    PostCopy(Seq<char>, Seq<char>),
    CheckClear(Seq<char>, Seq<char>),
    Unpack(Seq<char>),
    MoveAside(Seq<char>, Seq<char>),
    MoveIn(Seq<char>, Seq<char>),
    MoveBack(Seq<char>, Seq<char>),
    Discard(Seq<char>),
    Finish(Seq<char>),
    Fail(Seq<char>),
}

/// An event as text.
pub enum Heard {
    Resolved(Result<Seq<char>, Seq<char>>),
    Downloaded(Result<(), Seq<char>>),
    Emptiness(Result<bool, Seq<char>>),
    Notified(Result<(), Seq<char>>),
    Posted(Result<(), Seq<char>>),
    Clear(bool),
    Unpacked(Result<(), Seq<char>>),
    MovedAside(Result<(), Seq<char>>),
    MovedIn(Result<(), Seq<char>>),
    MovedBack(Result<(), Seq<char>>),
    Discarded(Result<(), Seq<char>>),
}

/// The view of a unit result.
pub open spec fn done_view(r: Result<(), String>) -> Result<(), Seq<char>> {
    match r {
        Ok(()) => Ok(()),
        Err(e) => Err(e@),
    }
}

/// An action as text.
pub open spec fn doing(a: RestoreAction) -> Doing {
    match a {
        RestoreAction::Refuse(m) => Doing::Refuse(m@),
        RestoreAction::Resolve(p) => Doing::Resolve(p@),
        RestoreAction::Download => Doing::Download,
        RestoreAction::CheckEmpty(t) => Doing::CheckEmpty(t@),
        RestoreAction::Notify(m) => Doing::Notify(m@),
        RestoreAction::PostCopy { path, target } => Doing::PostCopy(path@, target@),
        RestoreAction::CheckClear { staging, aside } => Doing::CheckClear(staging@, aside@),
        RestoreAction::Unpack(t) => Doing::Unpack(t@),
        RestoreAction::MoveAside { target, aside } => Doing::MoveAside(target@, aside@),
        RestoreAction::MoveIn { staging, target } => Doing::MoveIn(staging@, target@),
        RestoreAction::MoveBack { aside, target } => Doing::MoveBack(aside@, target@),
        RestoreAction::Discard(p) => Doing::Discard(p@),
        RestoreAction::Finish(m) => Doing::Finish(m@),
        RestoreAction::Fail(e) => Doing::Fail(e@),
    }
}

/// An event as text.
pub open spec fn heard(e: RestoreEvent) -> Heard {
    match e {
        RestoreEvent::Resolved(r) => Heard::Resolved(crate::steamcmd::result_view(r)),
        RestoreEvent::Downloaded(r) => Heard::Downloaded(done_view(r)),
        RestoreEvent::Emptiness(r) => Heard::Emptiness(
            match r {
                Ok(b) => Ok(b),
                Err(e) => Err(e@),
            },
        ),
        RestoreEvent::Notified(r) => Heard::Notified(done_view(r)),
        RestoreEvent::Posted(r) => Heard::Posted(done_view(r)),
        RestoreEvent::Clear(b) => Heard::Clear(b),
        RestoreEvent::Unpacked(r) => Heard::Unpacked(done_view(r)),
        RestoreEvent::MovedAside(r) => Heard::MovedAside(done_view(r)),
        RestoreEvent::MovedIn(r) => Heard::MovedIn(done_view(r)),
        RestoreEvent::MovedBack(r) => Heard::MovedBack(done_view(r)),
        RestoreEvent::Discarded(r) => Heard::Discarded(done_view(r)),
    }
}

/// How a restore from a message with `embeds` and `attachments` attachments
/// starts: refused unless it is one of this bot's backups with exactly one
/// attachment, else by resolving the path the backup records.
pub open spec fn restore_begin(embeds: Seq<EmbedInfo>, attachments: nat) -> (RestoreState, Doing) {
    match restore_source(embeds, attachments) {
        Err(refusal) => (
            RestoreState {
                path: Seq::empty(),
                target: Seq::empty(),
                error: Seq::empty(),
                phase: RestorePhase::Finished,
            },
            Doing::Refuse(refusal),
        ),
        Ok(path) => (
            RestoreState {
                path,
                target: Seq::empty(),
                error: Seq::empty(),
                phase: RestorePhase::AwaitResolve,
            },
            Doing::Resolve(path),
        ),
    }
}

/// The event `h` is the kind the restore is waiting for.
pub open spec fn restore_fits(s: RestoreState, h: Heard) -> bool {
    match s.phase {
        RestorePhase::AwaitResolve => h is Resolved,
        RestorePhase::AwaitDownload => h is Downloaded,
        RestorePhase::AwaitEmptiness => h is Emptiness,
        RestorePhase::AwaitNotice => h is Notified,
        RestorePhase::AwaitCopy => h is Posted,
        RestorePhase::AwaitClear => h is Clear,
        RestorePhase::AwaitUnpack => h is Unpacked,
        RestorePhase::AwaitAside => h is MovedAside,
        RestorePhase::AwaitMoveIn => h is MovedIn,
        RestorePhase::AwaitMoveBack => h is MovedBack,
        RestorePhase::AwaitCleanup => h is Discarded,
        RestorePhase::AwaitDiscard => h is Discarded,
        RestorePhase::Finished => false,
    }
}

/// The staging folder a restore unpacks into: beside `target`, under its
/// name with `.forest-ear-restore` added.
pub open spec fn staging_for(target: Seq<char>) -> Seq<char> {
    target + ".forest-ear-restore"@
}

/// Where a restore moves the folder's old contents while the new ones go in:
/// beside `target`, under its name with `.forest-ear-previous` added.
pub open spec fn aside_for(target: Seq<char>) -> Seq<char> {
    target + ".forest-ear-previous"@
}

/// The failure when a staging or set-aside folder from elsewhere is in the way.
pub open spec fn in_the_way(target: Seq<char>) -> Seq<char> {
    "Cannot restore: `"@ + staging_for(target) + "` or `"@ + aside_for(target)
        + "` already exists. Move it away and try again."@
}

/// One step of a restore: the state after event `h`, and what to do next.
/// A download precedes the safety copy, the safety copy (or the notice that
/// there is nothing to copy) precedes the unpack into a staging folder, and
/// only a complete unpack leads to moving the folder aside and the staging
/// folder in; a failure to move it in moves the folder back.
pub open spec fn restore_step(s: RestoreState, h: Heard) -> (RestoreState, Doing) {
    let finished = RestoreState { phase: RestorePhase::Finished, ..s };
    let staging = staging_for(s.target);
    let aside = aside_for(s.target);
    match h {
        Heard::Resolved(Ok(t)) => (
            RestoreState { target: t, phase: RestorePhase::AwaitDownload, ..s },
            Doing::Download,
        ),
        Heard::Resolved(Err(e)) => (finished, Doing::Fail(e)),
        Heard::Downloaded(Ok(())) => (
            RestoreState { phase: RestorePhase::AwaitEmptiness, ..s },
            Doing::CheckEmpty(s.target),
        ),
        Heard::Downloaded(Err(e)) => (finished, Doing::Fail("Error downloading attachment: "@ + e)),
        Heard::Emptiness(Ok(true)) => (
            RestoreState { phase: RestorePhase::AwaitNotice, ..s },
            Doing::Notify("`"@ + s.path + "` is empty, nothing to save first."@),
        ),
        Heard::Emptiness(Ok(false)) => (
            RestoreState { phase: RestorePhase::AwaitCopy, ..s },
            Doing::PostCopy(s.path, s.target),
        ),
        Heard::Emptiness(Err(e)) => (finished, Doing::Fail(e)),
        Heard::Notified(Ok(())) => (
            RestoreState { phase: RestorePhase::AwaitClear, ..s },
            Doing::CheckClear(staging, aside),
        ),
        Heard::Notified(Err(e)) => (finished, Doing::Fail(e)),
        Heard::Posted(Ok(())) => (
            RestoreState { phase: RestorePhase::AwaitClear, ..s },
            Doing::CheckClear(staging, aside),
        ),
        Heard::Posted(Err(e)) => (finished, Doing::Fail(e)),
        Heard::Clear(true) => (
            RestoreState { phase: RestorePhase::AwaitUnpack, ..s },
            Doing::Unpack(staging),
        ),
        Heard::Clear(false) => (finished, Doing::Fail(in_the_way(s.target))),
        Heard::Unpacked(Ok(())) => (
            RestoreState { phase: RestorePhase::AwaitAside, ..s },
            Doing::MoveAside(s.target, aside),
        ),
        Heard::Unpacked(Err(e)) => (
            RestoreState { error: e, phase: RestorePhase::AwaitCleanup, ..s },
            Doing::Discard(staging),
        ),
        Heard::MovedAside(Ok(())) => (
            RestoreState { phase: RestorePhase::AwaitMoveIn, ..s },
            Doing::MoveIn(staging, s.target),
        ),
        Heard::MovedAside(Err(e)) => (
            RestoreState { error: e, phase: RestorePhase::AwaitCleanup, ..s },
            Doing::Discard(staging),
        ),
        Heard::MovedIn(Ok(())) => (
            RestoreState { phase: RestorePhase::AwaitDiscard, ..s },
            Doing::Discard(aside),
        ),
        Heard::MovedIn(Err(e)) => (
            RestoreState { error: e, phase: RestorePhase::AwaitMoveBack, ..s },
            Doing::MoveBack(aside, s.target),
        ),
        Heard::MovedBack(Ok(())) => (
            RestoreState { phase: RestorePhase::AwaitCleanup, ..s },
            Doing::Discard(staging),
        ),
        Heard::MovedBack(Err(e)) => (
            finished,
            Doing::Fail(
                s.error + "; the previous contents could not be moved back and are at `"@ + aside
                    + "`: "@ + e,
            ),
        ),
        Heard::Discarded(r) => if s.phase is AwaitCleanup {
            (finished, Doing::Fail(s.error))
        } else {
            match r {
                Ok(()) => (finished, Doing::Finish("Restored `"@ + s.path + "`."@)),
                Err(e) => (
                    finished,
                    Doing::Finish(
                        "Restored `"@ + s.path + "`."@ + " The previous contents are left at `"@
                            + aside + "`: "@ + e,
                    ),
                ),
            }
        },
    }
}

/// The event reports a failure.
pub open spec fn is_failure(h: Heard) -> bool {
    match h {
        Heard::Resolved(r) => r is Err,
        Heard::Downloaded(r) => r is Err,
        Heard::Emptiness(r) => r is Err,
        Heard::Notified(r) => r is Err,
        Heard::Posted(r) => r is Err,
        Heard::Clear(b) => !b,
        Heard::Unpacked(r) => r is Err,
        Heard::MovedAside(r) => r is Err,
        Heard::MovedIn(r) => r is Err,
        Heard::MovedBack(r) => r is Err,
        Heard::Discarded(r) => r is Err,
    }
}

/// The action writes to the folder being restored.
pub open spec fn writes_target(d: Doing, target: Seq<char>) -> bool {
    match d {
        Doing::MoveAside(t, _) => t == target,
        Doing::MoveIn(_, t) => t == target,
        Doing::MoveBack(_, t) => t == target,
        Doing::Unpack(p) => p == target,
        Doing::Discard(p) => p == target,
        _ => false,
    }
}

/// A restore overwrites a folder only once its current contents are safe,
/// and a failed restore leaves it as it was. The folder is written only by
/// moving it aside whole, moving the staging folder into its place, or
/// moving it back: never unpacked into or removed. It is moved aside only
/// right after the backup was unpacked in full into the staging folder, which
/// happens only once neither helper folder was found in the way, which is
/// asked only right after the safety copy of that same folder was posted, or
/// the notice that the folder is empty, and so has nothing to save, was sent.
/// The staging folder is moved in only right after the folder was moved
/// aside, and if that fails the folder is moved back. The old contents are
/// removed only once the new ones are in place. Every failure ends the
/// restore with a `Fail`, after at most moving the folder back and removing
/// the staging folder.
pub proof fn lemma_failed_restore_leaves_the_folder(s: RestoreState, h: Heard)
    requires
        restore_fits(s, h),
    ensures
        ({
            let (next, d) = restore_step(s, h);
            let staging = staging_for(s.target);
            let aside = aside_for(s.target);
            &&& staging != s.target && aside != s.target
            &&& writes_target(d, s.target) ==> d is MoveAside || d is MoveIn || d is MoveBack
            &&& d matches Doing::MoveAside(t, a) ==> t == s.target && a == aside && s.phase is AwaitUnpack
                && (h matches Heard::Unpacked(Ok(_)))
            &&& d matches Doing::Unpack(st) ==> st == staging && s.phase is AwaitClear && h
                == Heard::Clear(true)
            &&& d matches Doing::CheckClear(st, a) ==> {
                &&& st == staging && a == aside
                &&& (s.phase is AwaitCopy && h matches Heard::Posted(Ok(_)))
                    || (s.phase is AwaitNotice && h matches Heard::Notified(Ok(_)))
            }
            &&& d matches Doing::MoveIn(st, t) ==> st == staging && t == s.target && s.phase
                is AwaitAside && (h matches Heard::MovedAside(Ok(_)))
            &&& h matches Heard::MovedIn(Err(_)) ==> d == Doing::MoveBack(aside, s.target)
            &&& d matches Doing::Discard(p) ==> {
                ||| p == staging
                ||| p == aside && s.phase is AwaitMoveIn && (h matches Heard::MovedIn(Ok(_)))
            }
            &&& d matches Doing::PostCopy(p, t) ==> p == s.path && t == s.target && h
                == Heard::Emptiness(Ok(false))
            &&& d matches Doing::Notify(_) ==> h == Heard::Emptiness(Ok(true))
            &&& is_failure(h) ==> !(d is MoveAside || d is MoveIn || d is Unpack || d is CheckClear)
            &&& is_failure(h) && !(s.phase is AwaitDiscard) ==> !(d is Finish)
            &&& is_failure(h) && !(s.phase is AwaitDiscard) ==> d is Fail || d is MoveBack
                || d == Doing::Discard(staging)
            &&& next.phase is AwaitCleanup ==> d == Doing::Discard(staging)
            &&& s.phase is AwaitCleanup ==> d is Fail
            &&& next.phase is AwaitCopy ==> d is PostCopy
            &&& next.phase is AwaitNotice ==> d is Notify
            &&& next.phase is AwaitAside ==> d is MoveAside
            &&& next.phase is AwaitMoveIn ==> d is MoveIn
            &&& next.phase is AwaitMoveBack ==> d is MoveBack
            &&& next.path == s.path
            &&& !(h is Resolved) ==> next.target == s.target
            &&& next.phase is Finished ==> forall|h2: Heard| !restore_fits(next, h2)
        }),
{
    reveal_strlit(".forest-ear-restore");
    reveal_strlit(".forest-ear-previous");
    assert(staging_for(s.target).len() > s.target.len());
    assert(aside_for(s.target).len() > s.target.len());
}

/// The staging folder a restore of `target` unpacks into.
pub fn staging_folder(target: &str) -> (s: String)
    ensures
        s@ == staging_for(target@),
{
    let mut s = owned(target);
    push_str(&mut s, ".forest-ear-restore");
    s
}

/// Where a restore of `target` moves the old contents meanwhile.
pub fn aside_folder(target: &str) -> (s: String)
    ensures
        s@ == aside_for(target@),
{
    let mut s = owned(target);
    push_str(&mut s, ".forest-ear-previous");
    s
}

/// Restores a save folder from a backup message, one step at a time.
pub struct RestoreFlow {
    path: String,
    target: String,
    error: String,
    phase: RestorePhase,
}

impl RestoreFlow {
    pub closed spec fn state(&self) -> RestoreState {
        RestoreState { path: self.path@, target: self.target@, error: self.error@, phase: self.phase }
    }

    /// Starts a restore from a message with these embeds and this many
    /// attachments; the action says what to do first.
    pub fn start(embeds: &Vec<EmbedInfo>, attachments: usize) -> (r: (RestoreFlow, RestoreAction))
        ensures
            (r.0.state(), doing(r.1)) == restore_begin(embeds@, attachments as nat),
    {
        match restore_target(embeds, attachments) {
            Err(refusal) => (
                RestoreFlow {
                    path: String::new(),
                    target: String::new(),
                    error: String::new(),
                    phase: RestorePhase::Finished,
                },
                RestoreAction::Refuse(refusal),
            ),
            Ok(path) => {
                let first = owned(path.as_str());
                (
                    RestoreFlow {
                        path,
                        target: String::new(),
                        error: String::new(),
                        phase: RestorePhase::AwaitResolve,
                    },
                    RestoreAction::Resolve(first),
                )
            },
        }
    }

    /// Whether `event` is the kind this restore is waiting for.
    pub fn expects(&self, event: &RestoreEvent) -> (b: bool)
        ensures
            b == restore_fits(self.state(), heard(*event)),
    {
        match self.phase {
            RestorePhase::AwaitResolve => matches!(event, RestoreEvent::Resolved(_)),
            RestorePhase::AwaitDownload => matches!(event, RestoreEvent::Downloaded(_)),
            RestorePhase::AwaitEmptiness => matches!(event, RestoreEvent::Emptiness(_)),
            RestorePhase::AwaitNotice => matches!(event, RestoreEvent::Notified(_)),
            RestorePhase::AwaitCopy => matches!(event, RestoreEvent::Posted(_)),
            RestorePhase::AwaitClear => matches!(event, RestoreEvent::Clear(_)),
            RestorePhase::AwaitUnpack => matches!(event, RestoreEvent::Unpacked(_)),
            RestorePhase::AwaitAside => matches!(event, RestoreEvent::MovedAside(_)),
            RestorePhase::AwaitMoveIn => matches!(event, RestoreEvent::MovedIn(_)),
            RestorePhase::AwaitMoveBack => matches!(event, RestoreEvent::MovedBack(_)),
            RestorePhase::AwaitCleanup => matches!(event, RestoreEvent::Discarded(_)),
            RestorePhase::AwaitDiscard => matches!(event, RestoreEvent::Discarded(_)),
            RestorePhase::Finished => false,
        }
    }

    /// Takes how the last action went; the result says what to do next.
    pub fn advance(&mut self, event: RestoreEvent) -> (r: RestoreAction)
        requires
            restore_fits(old(self).state(), heard(event)),
        ensures
            (final(self).state(), doing(r)) == restore_step(old(self).state(), heard(event)),
    {
        let cleanup = matches!(self.phase, RestorePhase::AwaitCleanup);
        match event {
            RestoreEvent::Resolved(Ok(t)) => {
                self.target = t;
                self.phase = RestorePhase::AwaitDownload;
                RestoreAction::Download
            },
            RestoreEvent::Downloaded(Ok(())) => {
                self.phase = RestorePhase::AwaitEmptiness;
                RestoreAction::CheckEmpty(owned(self.target.as_str()))
            },
            RestoreEvent::Downloaded(Err(e)) => {
                self.phase = RestorePhase::Finished;
                let mut m = owned("Error downloading attachment: ");
                push_str(&mut m, e.as_str());
                RestoreAction::Fail(m)
            },
            RestoreEvent::Emptiness(Ok(empty)) => {
                match pre_restore_notice(self.path.as_str(), empty) {
                    Some(notice) => {
                        self.phase = RestorePhase::AwaitNotice;
                        RestoreAction::Notify(notice)
                    },
                    None => {
                        self.phase = RestorePhase::AwaitCopy;
                        RestoreAction::PostCopy {
                            path: owned(self.path.as_str()),
                            target: owned(self.target.as_str()),
                        }
                    },
                }
            },
            RestoreEvent::Notified(Ok(())) | RestoreEvent::Posted(Ok(())) => {
                self.phase = RestorePhase::AwaitClear;
                RestoreAction::CheckClear {
                    staging: staging_folder(self.target.as_str()),
                    aside: aside_folder(self.target.as_str()),
                }
            },
            RestoreEvent::Clear(true) => {
                self.phase = RestorePhase::AwaitUnpack;
                RestoreAction::Unpack(staging_folder(self.target.as_str()))
            },
            RestoreEvent::Clear(false) => {
                self.phase = RestorePhase::Finished;
                let mut m = owned("Cannot restore: `");
                push_str(&mut m, staging_folder(self.target.as_str()).as_str());
                push_str(&mut m, "` or `");
                push_str(&mut m, aside_folder(self.target.as_str()).as_str());
                push_str(&mut m, "` already exists. Move it away and try again.");
                RestoreAction::Fail(m)
            },
            RestoreEvent::Unpacked(Ok(())) => {
                self.phase = RestorePhase::AwaitAside;
                RestoreAction::MoveAside {
                    target: owned(self.target.as_str()),
                    aside: aside_folder(self.target.as_str()),
                }
            },
            RestoreEvent::Unpacked(Err(e)) | RestoreEvent::MovedAside(Err(e)) => {
                self.error = e;
                self.phase = RestorePhase::AwaitCleanup;
                RestoreAction::Discard(staging_folder(self.target.as_str()))
            },
            RestoreEvent::MovedAside(Ok(())) => {
                self.phase = RestorePhase::AwaitMoveIn;
                RestoreAction::MoveIn {
                    staging: staging_folder(self.target.as_str()),
                    target: owned(self.target.as_str()),
                }
            },
            RestoreEvent::MovedIn(Ok(())) => {
                self.phase = RestorePhase::AwaitDiscard;
                RestoreAction::Discard(aside_folder(self.target.as_str()))
            },
            RestoreEvent::MovedIn(Err(e)) => {
                self.error = e;
                self.phase = RestorePhase::AwaitMoveBack;
                RestoreAction::MoveBack {
                    aside: aside_folder(self.target.as_str()),
                    target: owned(self.target.as_str()),
                }
            },
            RestoreEvent::MovedBack(Ok(())) => {
                self.phase = RestorePhase::AwaitCleanup;
                RestoreAction::Discard(staging_folder(self.target.as_str()))
            },
            RestoreEvent::MovedBack(Err(e)) => {
                self.phase = RestorePhase::Finished;
                let mut m = owned(self.error.as_str());
                push_str(&mut m, "; the previous contents could not be moved back and are at `");
                push_str(&mut m, aside_folder(self.target.as_str()).as_str());
                push_str(&mut m, "`: ");
                push_str(&mut m, e.as_str());
                RestoreAction::Fail(m)
            },
            RestoreEvent::Discarded(r) => {
                self.phase = RestorePhase::Finished;
                if cleanup {
                    RestoreAction::Fail(owned(self.error.as_str()))
                } else {
                    match r {
                        Ok(()) => RestoreAction::Finish(restored_line(self.path.as_str())),
                        Err(e) => {
                            let mut m = restored_line(self.path.as_str());
                            push_str(&mut m, " The previous contents are left at `");
                            push_str(&mut m, aside_folder(self.target.as_str()).as_str());
                            push_str(&mut m, "`: ");
                            push_str(&mut m, e.as_str());
                            RestoreAction::Finish(m)
                        },
                    }
                }
            },
            RestoreEvent::Resolved(Err(e)) | RestoreEvent::Emptiness(Err(e))
            | RestoreEvent::Notified(Err(e)) | RestoreEvent::Posted(Err(e)) => {
                self.phase = RestorePhase::Finished;
                RestoreAction::Fail(e)
            },
        }
    }
}

} // verus!
