//! Zipping a folder into an in-memory archive for a backup message.
//!
//! Paths inside the archive are relative to the folder, so extracting into a
//! folder reproduces its layout. The folder is walked depth first:
//! an `ArchiveBuilder` asks for one listing or one file at a time (an
//! `ArchiveRequest`) and writes what it is given into the archive.

use vstd::prelude::*;
use crate::paths::{path_strip_prefix, strip_prefix};
use crate::steamcmd::result_view;
use crate::text::{in_class, owned, push_str, replace_class, replaced, views, CharClass};

verus! {

/// A `zip::ZipWriter` writing into an in-memory buffer, with the options
/// every entry is written with, held opaque: Verus does not take a
/// declaration of `ZipWriter`, whose `Write + Seek` bound names traits it does
/// not know.
#[verifier::external_body]
pub struct ZipBuffer {
    writer: zip::ZipWriter<std::io::Cursor<Vec<u8>>>,
    options: zip::write::FileOptions,
}

/// The entries written into an archive so far, in order: each entry's name,
/// whether it is a folder, and the bytes written into it.
pub uninterp spec fn zip_entries(w: ZipBuffer) -> Seq<(Seq<char>, bool, Seq<u8>)>;

/// The writer is open: its stream is not closed (it has not been finished,
/// and no write overran an entry), and if its last entry is a file, that file
/// is still being written.
pub uninterp spec fn zip_open(w: ZipBuffer) -> bool;

/// The writer writes its file entries with Deflate at the default level.
pub uninterp spec fn zip_deflates(w: ZipBuffer) -> bool;

/// The bytes `ZipWriter::finish` leaves in the buffer of this writer.
pub uninterp spec fn zip_finished(w: ZipBuffer) -> Seq<u8>;

/// The largest file a backup stores, in bytes (2 GiB). Without the large-file
/// option `zip` refuses an entry once its uncompressed or its compressed size
/// passes `u32::MAX`; Deflate output for this much input stays far below that.
pub const ZIP_ENTRY_LIMIT: u64 = 0x8000_0000;

/// Every entry holds at most `ZIP_ENTRY_LIMIT` bytes.
pub open spec fn entries_fit(e: Seq<(Seq<char>, bool, Seq<u8>)>) -> bool {
    forall|i: int| 0 <= i < e.len() ==> (#[trigger] e[i]).2.len() <= ZIP_ENTRY_LIMIT
}

/// The name `add_directory` stores: a `/` is added unless the name already
/// ends in `/` or a backslash.
pub open spec fn directory_name(name: Seq<char>) -> Seq<char> {
    if name.len() > 0 && (name.last() == '/' || name.last() == '\\') {
        name
    } else {
        name + seq!['/']
    }
}

/// `zip::ZipWriter::new` over an empty in-memory buffer, to be written with
/// `FileOptions::default()` set to Deflate: an open writer with no entries.
/// The level is left unset, so starting a file never fails on the options.
#[verifier::external_body]
fn new_writer() -> (w: ZipBuffer)
    ensures
        zip_open(w),
        zip_deflates(w),
        zip_entries(w) == Seq::<(Seq<char>, bool, Seq<u8>)>::empty(),
{
    ZipBuffer {
        writer: zip::ZipWriter::new(std::io::Cursor::new(Vec::new())),
        options: zip::write::FileOptions::default().compression_method(
            zip::CompressionMethod::Deflated,
        ),
    }
}

/// `ZipWriter::add_directory`; an error comes back as its message. On an open
/// writer whose entries all fit the limit it succeeds, and it appends an
/// empty folder entry.
#[verifier::external_body]
fn add_directory(w: &mut ZipBuffer, name: &str) -> (r: Result<(), String>)
    ensures
        zip_deflates(*final(w)) == zip_deflates(*old(w)),
        zip_open(*old(w)) && entries_fit(zip_entries(*old(w))) ==> r is Ok,
        r is Ok ==> zip_open(*final(w)) && zip_entries(*final(w)) == zip_entries(*old(w)).push(
            (directory_name(name@), true, Seq::<u8>::empty()),
        ),
{
    match w.writer.add_directory(name, w.options) {
        Ok(()) => Ok(()),
        Err(e) => Err(format!("{}", e)),
    }
}

/// `ZipWriter::start_file` with the writer's options; an error comes back as
/// its message. On an open writer that deflates at the default level and
/// whose entries all fit the limit it succeeds, and it appends an empty file
/// entry that later writes go into.
#[verifier::external_body]
fn start_file(w: &mut ZipBuffer, name: &str) -> (r: Result<(), String>)
    ensures
        zip_deflates(*final(w)) == zip_deflates(*old(w)),
        zip_open(*old(w)) && zip_deflates(*old(w)) && entries_fit(zip_entries(*old(w))) ==> r
            is Ok,
        r is Ok ==> zip_open(*final(w)) && zip_entries(*final(w)) == zip_entries(*old(w)).push(
            (name@, false, Seq::<u8>::empty()),
        ),
{
    match w.writer.start_file(name, w.options) {
        Ok(()) => Ok(()),
        Err(e) => Err(format!("{}", e)),
    }
}

/// `Write::write_all` on the archive; an error comes back as its message.
/// Writing nothing changes nothing. Writing into the file entry just
/// started, on an open writer, succeeds while the entry stays within the
/// limit, and appends the bytes to that entry.
#[verifier::external_body]
fn write_all(w: &mut ZipBuffer, bytes: &[u8]) -> (r: Result<(), String>)
    ensures
        zip_deflates(*final(w)) == zip_deflates(*old(w)),
        ({
            let e = zip_entries(*old(w));
            zip_open(*old(w)) && e.len() > 0 && !e.last().1 && e.last().2.len() + bytes@.len()
                <= ZIP_ENTRY_LIMIT ==> r is Ok
        }),
        r is Ok && bytes@.len() == 0 ==> *final(w) == *old(w),
        r is Ok && bytes@.len() > 0 ==> {
            let e = zip_entries(*old(w));
            &&& zip_open(*old(w))
            &&& e.len() > 0
            &&& !e.last().1
            &&& zip_open(*final(w))
            &&& zip_entries(*final(w)) == e.update(
                e.len() - 1,
                (e.last().0, false, e.last().2 + bytes@),
            )
        },
{
    match std::io::Write::write_all(&mut w.writer, bytes) {
        Ok(()) => Ok(()),
        Err(e) => Err(format!("{}", e)),
    }
}

/// `ZipWriter::finish`, handing back the finished archive's bytes; an error
/// comes back as its message. On an open writer whose entries all fit the
/// limit it succeeds, with the bytes that finishing that writer leaves.
#[verifier::external_body]
fn finish(w: &mut ZipBuffer) -> (r: Result<Vec<u8>, String>)
    ensures
        zip_open(*old(w)) && entries_fit(zip_entries(*old(w))) ==> r is Ok,
        r matches Ok(b) ==> b@ == zip_finished(*old(w)),
{
    match w.writer.finish() {
        Ok(cursor) => Ok(cursor.into_inner()),
        Err(e) => Err(format!("{}", e)),
    }
}

/// One entry of a listed folder.
pub struct DirItem {
    pub path: String,
    /// Whether the path is a folder, following links.
    pub is_dir: bool,
}

/// What the builder needs next, or the finished archive.
pub enum ArchiveRequest {
    /// The entries of this folder.
    ListDir(String),
    /// The contents of this file.
    ReadFile(String),
    /// The archive, or why it could not be made.
    Done(Result<Vec<u8>, String>),
}

/// The answer to an `ArchiveRequest`.
pub enum ArchiveAnswer {
    Listed(Result<Vec<DirItem>, String>),
    Read(Result<Vec<u8>, String>),
}

/// A call made on the archive writer.
pub enum ArchiveOp {
    Directory(Seq<char>),
    File(Seq<char>),
    Bytes(Seq<u8>),
    Finish,
}

/// A request as text.
pub enum Wanted {
    ListDir(Seq<char>),
    ReadFile(Seq<char>),
    /// Whatever the writer's `finish` gave.
    Finished,
    Failed(Seq<char>),
}

/// Where a builder stands.
pub enum ArchivePhase {
    AwaitListing,
    AwaitFile,
    Finished,
}

/// The name an entry gets in the archive: its path below the root, with `/`
/// between components; none when the path is not below the root.
pub open spec fn entry_name(path: Seq<char>, root: Seq<char>, windows: bool) -> Option<Seq<char>> {
    match strip_prefix(path, root, windows) {
        Some(n) => Some(replaced(n, CharClass::Exactly('\\'), '/')),
        None => None,
    }
}

/// From entry `next` of the folder being written, with folders `stack` still
/// to visit: the writer calls made before the next request, the stack and
/// position then reached, and that request.
pub open spec fn plan(
    items: Seq<DirItem>,
    next: nat,
    stack: Seq<Seq<char>>,
    root: Seq<char>,
    windows: bool,
) -> (Seq<ArchiveOp>, Seq<Seq<char>>, nat, Wanted)
    decreases items.len() - next,
{
    if next >= items.len() {
        if stack.len() == 0 {
            (seq![ArchiveOp::Finish], stack, next, Wanted::Finished)
        } else {
            (Seq::empty(), stack.drop_last(), next, Wanted::ListDir(stack.last()))
        }
    } else {
        let item = items[next as int];
        match entry_name(item.path@, root, windows) {
            None => (Seq::empty(), stack, next, Wanted::Failed("prefix not found"@)),
            Some(name) => if item.is_dir {
                let rest = plan(items, next + 1, stack.push(item.path@), root, windows);
                (seq![ArchiveOp::Directory(name + "/"@)] + rest.0, rest.1, rest.2, rest.3)
            } else {
                (seq![ArchiveOp::File(name)], stack, next, Wanted::ReadFile(item.path@))
            },
        }
    }
}

/// A writer call that names an entry names it the same way on every system:
/// no backslash in the name, and a folder's name ends with `/`.
pub open spec fn portable(op: ArchiveOp) -> bool {
    match op {
        ArchiveOp::Directory(n) => n.len() > 0 && n.last() == '/' && !n.contains('\\'),
        ArchiveOp::File(n) => !n.contains('\\'),
        _ => true,
    }
}

/// Every call in `log` is portable.
pub open spec fn all_portable(log: Seq<ArchiveOp>) -> bool {
    forall|i: int| 0 <= i < log.len() ==> portable(#[trigger] log[i])
}

/// The names an entry gets carry no backslash.
pub proof fn lemma_entry_name_has_no_backslash(path: Seq<char>, root: Seq<char>, windows: bool)
    ensures
        entry_name(path, root, windows) matches Some(n) ==> !n.contains('\\'),
{
    if let Some(n) = entry_name(path, root, windows) {
        if n.contains('\\') {
            let j = choose|j: int| 0 <= j < n.len() && n[j] == '\\';
            let stripped = strip_prefix(path, root, windows).unwrap();
            assert(n[j] == (if in_class(stripped[j], CharClass::Exactly('\\')) {
                '/'
            } else {
                stripped[j]
            }));
        }
    }
}

/// A portable call added to a portable log keeps it portable.
proof fn lemma_push_portable(log: Seq<ArchiveOp>, op: ArchiveOp)
    requires
        all_portable(log),
        portable(op),
    ensures
        all_portable(log.push(op)),
{
    assert forall|i: int| 0 <= i < log.push(op).len() implies portable(#[trigger] log.push(op)[i]) by {
        if i < log.len() {
            assert(log.push(op)[i] == log[i]);
        }
    }
}

/// A folder entry's name, `/` added to a name without a backslash, is portable.
proof fn lemma_dir_name_portable(name: Seq<char>)
    requires
        !name.contains('\\'),
    ensures
        portable(ArchiveOp::Directory(name + "/"@)),
{
    reveal_strlit("/");
    let d = name + "/"@;
    if d.contains('\\') {
        let j = choose|j: int| 0 <= j < d.len() && d[j] == '\\';
        if j < name.len() {
            assert(name[j] == d[j]);
        }
    }
}

/// Every writer call a plan makes is portable.
pub proof fn lemma_plan_is_portable(
    items: Seq<DirItem>,
    next: nat,
    stack: Seq<Seq<char>>,
    root: Seq<char>,
    windows: bool,
)
    ensures
        all_portable(plan(items, next, stack, root, windows).0),
    decreases items.len() - next,
{
    reveal_strlit("/");
    if next < items.len() {
        let item = items[next as int];
        lemma_entry_name_has_no_backslash(item.path@, root, windows);
        if let Some(name) = entry_name(item.path@, root, windows) {
            if item.is_dir {
                lemma_plan_is_portable(items, next + 1, stack.push(item.path@), root, windows);
                let rest = plan(items, next + 1, stack.push(item.path@), root, windows);
                let d = name + "/"@;
                lemma_dir_name_portable(name);
                let ops = seq![ArchiveOp::Directory(d)] + rest.0;
                assert forall|i: int| 0 <= i < ops.len() implies portable(#[trigger] ops[i]) by {
                    if i > 0 {
                        assert(ops[i] == rest.0[i - 1]);
                    }
                }
            }
        }
    }
}

/// The paths of the folders among `items`, in order.
pub open spec fn dir_paths(items: Seq<DirItem>) -> Seq<Seq<char>>
    decreases items.len(),
{
    if items.len() == 0 {
        Seq::empty()
    } else {
        (if items[0].is_dir {
            seq![items[0].path@]
        } else {
            Seq::empty()
        }) + dir_paths(items.drop_first())
    }
}

/// The walk is complete: every folder of a listing is kept to be listed in
/// turn, whatever its depth. From entry `next` of a listing, with folders
/// `stack` still to visit, the next request reads the first file after
/// `next`, with every folder met on the way added to the folders still to
/// visit; or, once the listing is used up, lists the last folder still to
/// visit; and the archive is finished only when no folder at all is left to
/// visit. (A path outside the folder stops the walk with a failure instead.)
pub proof fn lemma_every_folder_is_listed(
    items: Seq<DirItem>,
    next: nat,
    stack: Seq<Seq<char>>,
    root: Seq<char>,
    windows: bool,
)
    requires
        next <= items.len(),
    ensures
        ({
            let p = plan(items, next, stack, root, windows);
            &&& p.3 matches Wanted::ReadFile(f) ==> {
                &&& next <= p.2 < items.len()
                &&& f == items[p.2 as int].path@
                &&& !items[p.2 as int].is_dir
                &&& p.1 == stack + dir_paths(items.subrange(next as int, p.2 as int))
            }
            &&& p.3 matches Wanted::ListDir(d) ==> p.1.push(d) == stack + dir_paths(
                items.subrange(next as int, items.len() as int),
            )
            &&& p.3 is Finished ==> stack + dir_paths(items.subrange(next as int, items.len() as int))
                == Seq::<Seq<char>>::empty()
        }),
    decreases items.len() - next,
{
    let p = plan(items, next, stack, root, windows);
    if next >= items.len() {
        assert(items.subrange(next as int, items.len() as int) =~= Seq::<DirItem>::empty());
        assert(stack + dir_paths(Seq::<DirItem>::empty()) =~= stack);
        if stack.len() > 0 {
            assert(stack.drop_last().push(stack.last()) =~= stack);
        }
    } else {
        let item = items[next as int];
        if let Some(name) = entry_name(item.path@, root, windows) {
            let here = items.subrange(next as int, items.len() as int);
            assert(here.drop_first() =~= items.subrange(next + 1int, items.len() as int));
            if item.is_dir {
                lemma_every_folder_is_listed(items, next + 1, stack.push(item.path@), root, windows);
                let rest = plan(items, next + 1, stack.push(item.path@), root, windows);
                assert(dir_paths(here) == seq![item.path@] + dir_paths(here.drop_first()));
                assert(stack.push(item.path@) + dir_paths(here.drop_first()) =~= stack + dir_paths(
                    here,
                ));
                if rest.3 is ReadFile {
                    let upto = items.subrange(next as int, rest.2 as int);
                    assert(upto.drop_first() =~= items.subrange(next + 1int, rest.2 as int));
                    assert(upto[0] == item);
                    assert(dir_paths(upto) == seq![item.path@] + dir_paths(upto.drop_first()));
                    assert(stack.push(item.path@) + dir_paths(upto.drop_first()) =~= stack
                        + dir_paths(upto));
                }
            } else {
                assert(items.subrange(next as int, next as int) =~= Seq::<DirItem>::empty());
                assert(stack + dir_paths(Seq::<DirItem>::empty()) =~= stack);
            }
        }
    }
}

/// The entries a writer holds after the calls in `log`: a folder or file
/// entry per `Directory` or `File` call, bytes added to the last entry per
/// `Bytes` call.
pub open spec fn entries_of(log: Seq<ArchiveOp>) -> Seq<(Seq<char>, bool, Seq<u8>)>
    decreases log.len(),
{
    if log.len() == 0 {
        Seq::empty()
    } else {
        let e = entries_of(log.drop_last());
        match log.last() {
            ArchiveOp::Directory(n) => e.push((n, true, Seq::<u8>::empty())),
            ArchiveOp::File(n) => e.push((n, false, Seq::<u8>::empty())),
            ArchiveOp::Bytes(b) => if e.len() > 0 {
                e.update(e.len() - 1, (e.last().0, e.last().1, e.last().2 + b))
            } else {
                e
            },
            ArchiveOp::Finish => e,
        }
    }
}

/// `b` is what finishing a writer that holds exactly the entries `e` gives.
pub open spec fn finished_with(b: Seq<u8>, e: Seq<(Seq<char>, bool, Seq<u8>)>) -> bool {
    exists|z: ZipBuffer| zip_open(z) && zip_entries(z) == e && #[trigger] zip_finished(z) == b
}

/// `r` is what `w` asks for, after the writer calls in `log`: the finished
/// archive is the one holding exactly the entries those calls made.
pub open spec fn answers(r: ArchiveRequest, w: Wanted, log: Seq<ArchiveOp>) -> bool {
    match w {
        Wanted::ListDir(p) => r matches ArchiveRequest::ListDir(q) && q@ == p,
        Wanted::ReadFile(p) => r matches ArchiveRequest::ReadFile(q) && q@ == p,
        Wanted::Finished => r matches ArchiveRequest::Done(Ok(b)) && finished_with(b@, entries_of(log)),
        Wanted::Failed(e) => r matches ArchiveRequest::Done(Err(m)) && m@ == e,
    }
}

/// Adding an empty entry keeps every entry within the limit, or not.
proof fn lemma_push_empty_fits(e: Seq<(Seq<char>, bool, Seq<u8>)>, n: Seq<char>, dir: bool)
    ensures
        entries_fit(e.push((n, dir, Seq::<u8>::empty()))) == entries_fit(e),
{
    let f = e.push((n, dir, Seq::<u8>::empty()));
    if entries_fit(e) {
        assert forall|i: int| 0 <= i < f.len() implies (#[trigger] f[i]).2.len() <= ZIP_ENTRY_LIMIT by {
            if i < e.len() {
                assert(f[i] == e[i]);
            }
        }
    }
    if entries_fit(f) {
        assert forall|i: int| 0 <= i < e.len() implies (#[trigger] e[i]).2.len() <= ZIP_ENTRY_LIMIT by {
            assert(f[i] == e[i]);
        }
    }
}

/// A builder's state.
pub struct ArchiveState {
    pub root: Seq<char>,
    pub windows: bool,
    pub stack: Seq<Seq<char>>,
    pub items: Seq<DirItem>,
    pub next: nat,
    pub phase: ArchivePhase,
    /// Every call made on the writer so far, in order.
    pub log: Seq<ArchiveOp>,
    /// The entries the writer holds.
    pub written: Seq<(Seq<char>, bool, Seq<u8>)>,
    /// Whether the writer is open.
    pub open: bool,
    /// Whether the writer writes its files with Deflate at the default level.
    pub deflates: bool,
}

/// Zips one folder, one listing or file at a time.
pub struct ArchiveBuilder {
    root: String,
    windows: bool,
    stack: Vec<String>,
    items: Vec<DirItem>,
    next: usize,
    phase: ArchivePhase,
    writer: ZipBuffer,
    log: Ghost<Seq<ArchiveOp>>,
}

impl ArchiveBuilder {
    pub closed spec fn state(&self) -> ArchiveState {
        ArchiveState {
            root: self.root@,
            windows: self.windows,
            stack: views(self.stack@),
            items: self.items@,
            next: self.next as nat,
            phase: self.phase,
            log: self.log@,
            written: zip_entries(self.writer),
            open: zip_open(self.writer),
            deflates: zip_deflates(self.writer),
        }
    }

    /// A builder waiting for a file is positioned on that file, and every
    /// entry it has named so far is named portably; until it is finished, its
    /// writer is open and holds exactly the entries its calls made, the last
    /// one an empty file while it waits for that file's bytes.
    pub open spec fn wf(&self) -> bool {
        let s = self.state();
        &&& s.next <= s.items.len()
        &&& s.phase is AwaitFile ==> s.next < s.items.len()
        &&& all_portable(s.log)
        &&& !(s.phase is Finished) ==> s.open && s.deflates && s.written == entries_of(s.log)
        &&& s.phase is AwaitFile ==> s.written.len() > 0 && !s.written.last().1
            && s.written.last().2.len() == 0
    }

    /// Starts zipping the contents of `root`; the first request lists it.
    pub fn start(root: &str, windows: bool) -> (r: (ArchiveBuilder, ArchiveRequest))
        ensures
            r.0.wf(),
            r.0.state() == (ArchiveState {
                root: root@,
                windows,
                stack: Seq::empty(),
                items: Seq::empty(),
                next: 0,
                phase: ArchivePhase::AwaitListing,
                log: Seq::empty(),
                written: Seq::empty(),
                open: true,
                deflates: true,
            }),
            r.1 matches ArchiveRequest::ListDir(p) && p@ == root@,
    {
        let b = ArchiveBuilder {
            root: owned(root),
            windows,
            stack: Vec::new(),
            items: Vec::new(),
            next: 0,
            phase: ArchivePhase::AwaitListing,
            writer: new_writer(),
            log: Ghost(Seq::empty()),
        };
        assert(b.state().stack =~= Seq::<Seq<char>>::empty());
        (b, ArchiveRequest::ListDir(owned(root)))
    }

    fn entry_name_exec(&self, path: &str) -> (r: Option<String>)
        ensures
            crate::paths::opt_seq(r) == entry_name(path@, self.root@, self.windows),
    {
        match path_strip_prefix(path, self.root.as_str(), self.windows) {
            Some(n) => Some(replace_class(n.as_str(), &CharClass::Exactly('\\'), '/')),
            None => None,
        }
    }

    /// Writes entries from `self.next` on until something must be read. The
    /// writer calls succeed while every entry fits the limit.
    fn run(&mut self) -> (r: ArchiveRequest)
        requires
            old(self).wf(),
            old(self).state().phase is AwaitListing,
        ensures
            final(self).wf(),
            final(self).state().root == old(self).state().root,
            final(self).state().windows == old(self).state().windows,
            final(self).state().items == old(self).state().items,
            ({
                let p = plan(
                    old(self).state().items,
                    old(self).state().next,
                    old(self).state().stack,
                    old(self).state().root,
                    old(self).state().windows,
                );
                ||| {
                    &&& final(self).state().log == old(self).state().log + p.0
                    &&& final(self).state().stack == p.1
                    &&& final(self).state().next == p.2
                    &&& answers(r, p.3, final(self).state().log)
                }
                ||| {
                    &&& !entries_fit(old(self).state().written)
                    &&& r matches ArchiveRequest::Done(Err(_))
                    &&& final(self).state().phase is Finished
                    &&& final(self).state().log.len() <= (old(self).state().log + p.0).len()
                    &&& final(self).state().log == (old(self).state().log + p.0).take(
                        final(self).state().log.len() as int,
                    )
                }
            }),
            r is ListDir ==> final(self).state().phase is AwaitListing,
            r is ReadFile ==> final(self).state().phase is AwaitFile,
            r is Done ==> final(self).state().phase is Finished,
    {
        let ghost start = self.state();
        let ghost target = plan(start.items, start.next, start.stack, start.root, start.windows);
        let ghost mut done: Seq<ArchiveOp> = Seq::empty();
        while self.next < self.items.len()
            invariant
                start == old(self).state(),
                target == plan(
                    old(self).state().items,
                    old(self).state().next,
                    old(self).state().stack,
                    old(self).state().root,
                    old(self).state().windows,
                ),
                self.next <= self.items@.len(),
                self.root@ == start.root,
                self.windows == start.windows,
                self.items@ == start.items,
                self.log@ == start.log + done,
                all_portable(self.log@),
                self.phase is AwaitListing,
                zip_open(self.writer),
                zip_deflates(self.writer),
                zip_entries(self.writer) == entries_of(self.log@),
                entries_fit(zip_entries(self.writer)) == entries_fit(start.written),
                ({
                    let p = plan(self.items@, self.next as nat, views(self.stack@), self.root@, self.windows);
                    target == (done + p.0, p.1, p.2, p.3)
                }),
            decreases self.items@.len() - self.next,
        {
            let path = self.items[self.next].path.clone();
            let is_dir = self.items[self.next].is_dir;
            let name = match self.entry_name_exec(path.as_str()) {
                Some(n) => n,
                None => {
                    let ghost p = plan(self.items@, self.next as nat, views(self.stack@), self.root@, self.windows);
                    assert(path@ == self.items@[self.next as int].path@);
                    assert(entry_name(path@, self.root@, self.windows) is None);
                    assert(p.0 == Seq::<ArchiveOp>::empty());
                    assert(p.3 == Wanted::Failed("prefix not found"@));
                    assert(done + p.0 =~= done);
                    self.phase = ArchivePhase::Finished;
                    let r = ArchiveRequest::Done(Err(owned("prefix not found")));
                    assert(answers(r, p.3, self.log@));
                    assert(target == (done + p.0, p.1, p.2, p.3));
                    assert(self.state().log == old(self).state().log + target.0);
                    assert(self.state().stack == target.1);
                    assert(self.state().next == target.2);
                    assert(answers(r, target.3, self.log@));
                    return r;
                },
            };
            let ghost p0 = plan(self.items@, self.next as nat, views(self.stack@), self.root@, self.windows);
            assert(path@ == self.items@[self.next as int].path@);
            assert(is_dir == self.items@[self.next as int].is_dir);
            assert(entry_name(path@, self.root@, self.windows) == Some(name@));
            if is_dir {
                let mut dir_name = owned(name.as_str());
                push_str(&mut dir_name, "/");
                assert(p0.0[0] == ArchiveOp::Directory(dir_name@));
                assert(p0.0.len() >= 1);
                let ghost before_log = self.log@;
                let ghost before_entries = zip_entries(self.writer);
                proof {
                    reveal_strlit("/");
                    assert(dir_name@.last() == '/');
                    assert(directory_name(dir_name@) == dir_name@);
                    lemma_push_empty_fits(before_entries, dir_name@, true);
                    lemma_entry_name_has_no_backslash(path@, self.root@, self.windows);
                    lemma_dir_name_portable(name@);
                    lemma_push_portable(self.log@, ArchiveOp::Directory(dir_name@));
                    self.log@ = self.log@.push(ArchiveOp::Directory(dir_name@));
                }
                match add_directory(&mut self.writer, dir_name.as_str()) {
                    Ok(()) => {
                        assert(self.log@.drop_last() == before_log);
                        assert(zip_entries(self.writer) == entries_of(self.log@));
                    },
                    Err(e) => {
                        self.phase = ArchivePhase::Finished;
                        assert(target.0 == done + p0.0);
                        assert((start.log + target.0).take(self.log@.len() as int) =~= self.log@);
                        assert(self.state().log.len() <= (old(self).state().log + target.0).len());
                        assert(self.state().log == (old(self).state().log + target.0).take(
                            self.state().log.len() as int,
                        ));
                        return ArchiveRequest::Done(Err(e));
                    },
                }
                let ghost st = views(self.stack@);
                self.stack.push(path);
                assert(views(self.stack@) =~= st.push(self.items@[self.next as int].path@));
                proof {
                    done = done.push(ArchiveOp::Directory(dir_name@));
                    assert(start.log + done =~= before_log.push(ArchiveOp::Directory(dir_name@)));
                }
                self.next = self.next + 1;
                proof {
                    let p = plan(self.items@, self.next as nat, views(self.stack@), self.root@, self.windows);
                    assert(target.0 =~= done + p.0);
                }
            } else {
                assert(p0.0 == seq![ArchiveOp::File(name@)]);
                assert(p0.3 == Wanted::ReadFile(path@));
                assert(target.0 == done + p0.0);
                let ghost before_log = self.log@;
                let ghost before_entries = zip_entries(self.writer);
                proof {
                    lemma_push_empty_fits(before_entries, name@, false);
                    lemma_entry_name_has_no_backslash(path@, self.root@, self.windows);
                    lemma_push_portable(self.log@, ArchiveOp::File(name@));
                    self.log@ = self.log@.push(ArchiveOp::File(name@));
                }
                match start_file(&mut self.writer, name.as_str()) {
                    Ok(()) => {
                        assert(self.log@.drop_last() == before_log);
                        assert(zip_entries(self.writer) == entries_of(self.log@));
                    },
                    Err(e) => {
                        self.phase = ArchivePhase::Finished;
                        assert((start.log + target.0).take(self.log@.len() as int) =~= self.log@);
                        assert(self.state().log == (old(self).state().log + target.0).take(
                            self.state().log.len() as int,
                        ));
                        return ArchiveRequest::Done(Err(e));
                    },
                }
                self.phase = ArchivePhase::AwaitFile;
                assert(self.log@ =~= start.log + target.0);
                let r = ArchiveRequest::ReadFile(path);
                assert(answers(r, target.3, self.log@));
                assert(self.state().log == old(self).state().log + target.0);
                assert(self.state().stack == target.1);
                assert(self.state().next == target.2);
                return r;
            }
        }
        let ghost st = views(self.stack@);
        match self.stack.pop() {
            Some(dir) => {
                assert(views(self.stack@) =~= st.drop_last());
                self.phase = ArchivePhase::AwaitListing;
                assert(self.log@ =~= start.log + target.0);
                ArchiveRequest::ListDir(dir)
            },
            None => {
                let ghost w0 = self.writer;
                let ghost before_log = self.log@;
                proof {
                    lemma_push_portable(self.log@, ArchiveOp::Finish);
                    self.log@ = self.log@.push(ArchiveOp::Finish);
                    assert(self.log@.drop_last() == before_log);
                    assert(entries_of(self.log@) == entries_of(before_log));
                }
                self.phase = ArchivePhase::Finished;
                assert(self.log@ =~= start.log + target.0);
                let res = finish(&mut self.writer);
                proof {
                    if let Ok(b) = &res {
                        assert(zip_finished(w0) == b@);
                        assert(finished_with(b@, entries_of(self.log@)));
                    } else {
                        assert(self.log@.take(self.log@.len() as int) =~= self.log@);
                    }
                }
                ArchiveRequest::Done(res)
            },
        }
    }

    /// Whether `answer` is the kind this builder is waiting for.
    pub open spec fn fits(&self, answer: ArchiveAnswer) -> bool {
        match self.state().phase {
            ArchivePhase::AwaitListing => answer is Listed,
            ArchivePhase::AwaitFile => answer is Read,
            ArchivePhase::Finished => false,
        }
    }

    /// Whether `answer` is the kind this builder is waiting for.
    pub fn expects(&self, answer: &ArchiveAnswer) -> (b: bool)
        ensures
            b == self.fits(*answer),
    {
        let listed = matches!(answer, ArchiveAnswer::Listed(_));
        match self.phase {
            ArchivePhase::AwaitListing => listed,
            ArchivePhase::AwaitFile => !listed,
            ArchivePhase::Finished => false,
        }
    }

    /// Takes the answer to the last request; the result says what is needed next.
    pub fn advance(&mut self, answer: ArchiveAnswer) -> (r: ArchiveRequest)
        requires
            old(self).wf(),
            old(self).fits(answer),
        ensures
            final(self).wf(),
            final(self).state().root == old(self).state().root,
            final(self).state().windows == old(self).state().windows,
            match answer {
                ArchiveAnswer::Listed(Err(e)) => r matches ArchiveRequest::Done(Err(m)) && m@ == e@
                    && final(self).state().log == old(self).state().log,
                ArchiveAnswer::Read(Err(e)) => r matches ArchiveRequest::Done(Err(m)) && m@ == e@
                    && final(self).state().log == old(self).state().log,
                ArchiveAnswer::Listed(Ok(items)) => {
                    let p = plan(items@, 0, old(self).state().stack, old(self).state().root, old(self).state().windows);
                    let planned = old(self).state().log + p.0;
                    ||| final(self).state().log == planned && answers(r, p.3, planned)
                    ||| !entries_fit(old(self).state().written) && (r matches ArchiveRequest::Done(
                        Err(_),
                    )) && final(self).state().log.len() <= planned.len()
                        && final(self).state().log == planned.take(
                        final(self).state().log.len() as int,
                    )
                }
                ArchiveAnswer::Read(Ok(bytes)) => {
                    let s = old(self).state();
                    let p = plan(s.items, s.next + 1, s.stack, s.root, s.windows);
                    let planned = s.log.push(ArchiveOp::Bytes(bytes@)) + p.0;
                    ||| final(self).state().log == planned && answers(r, p.3, planned)
                    ||| !(entries_fit(s.written) && bytes@.len() <= ZIP_ENTRY_LIMIT) && (
                    r matches ArchiveRequest::Done(Err(_))) && final(self).state().log.len()
                        <= planned.len()
                        && final(self).state().log == planned.take(
                        final(self).state().log.len() as int,
                    )
                }
            },
            r is ListDir ==> final(self).state().phase is AwaitListing,
            r is ReadFile ==> final(self).state().phase is AwaitFile,
            r is Done ==> final(self).state().phase is Finished,
    {
        match answer {
            ArchiveAnswer::Listed(Err(e)) => {
                self.phase = ArchivePhase::Finished;
                ArchiveRequest::Done(Err(e))
            },
            ArchiveAnswer::Read(Err(e)) => {
                self.phase = ArchivePhase::Finished;
                ArchiveRequest::Done(Err(e))
            },
            ArchiveAnswer::Listed(Ok(items)) => {
                self.items = items;
                self.next = 0;
                self.run()
            },
            ArchiveAnswer::Read(Ok(bytes)) => {
                assert(self.phase is AwaitFile);
                assert(self.next < self.items.len());
                let ghost before_log = self.log@;
                let ghost e0 = zip_entries(self.writer);
                proof {
                    lemma_push_portable(self.log@, ArchiveOp::Bytes(bytes@));
                    self.log@ = self.log@.push(ArchiveOp::Bytes(bytes@));
                }
                match write_all(&mut self.writer, bytes.as_slice()) {
                    Ok(()) => {
                        proof {
                            assert(self.log@.drop_last() == before_log);
                            let last = (e0.last().0, e0.last().1, e0.last().2 + bytes@);
                            assert(entries_of(self.log@) == e0.update(e0.len() - 1, last));
                            if bytes@.len() == 0 {
                                assert(e0.last().2 + bytes@ =~= e0.last().2);
                                assert(e0.update(e0.len() - 1, last) =~= e0);
                            }
                            assert(zip_entries(self.writer) == entries_of(self.log@));
                            let e1 = zip_entries(self.writer);
                            if entries_fit(e0) && bytes@.len() <= ZIP_ENTRY_LIMIT {
                                assert forall|k: int| 0 <= k < e1.len() implies (#[trigger] e1[k]).2.len()
                                    <= ZIP_ENTRY_LIMIT by {
                                    if k < e1.len() - 1 {
                                        assert(e1[k] == e0[k]);
                                    }
                                }
                            }
                        }
                    },
                    Err(e) => {
                        self.phase = ArchivePhase::Finished;
                        proof {
                            let s = old(self).state();
                            let p = plan(s.items, s.next + 1, s.stack, s.root, s.windows);
                            let planned = s.log.push(ArchiveOp::Bytes(bytes@)) + p.0;
                            assert(planned.take(self.log@.len() as int) =~= self.log@);
                        }
                        return ArchiveRequest::Done(Err(e));
                    },
                }
                self.next = self.next + 1;
                self.phase = ArchivePhase::AwaitListing;
                self.run()
            },
        }
    }
}

/// Starts zipping the contents of `dir`; drive the builder with
/// `ArchiveBuilder::advance` until it answers `ArchiveRequest::Done`.
pub fn zip_dir(dir: &str, windows: bool) -> (r: (ArchiveBuilder, ArchiveRequest))
    ensures
        r.0.wf(),
        r.0.state().root == dir@,
        r.0.state().log == Seq::<ArchiveOp>::empty(),
        r.0.state().open,
        r.0.state().deflates,
        r.0.state().written == Seq::<(Seq<char>, bool, Seq<u8>)>::empty(),
        r.1 matches ArchiveRequest::ListDir(p) && p@ == dir@,
{
    ArchiveBuilder::start(dir, windows)
}

} // verus!
