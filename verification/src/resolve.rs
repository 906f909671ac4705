//! Resolving a user-facing path such as `Palworld_Server/Saved` to a folder.
//!
//! The walk goes one segment at a time from the saves root, so the root entry
//! and everything below it are treated alike and a shortcut is followed at
//! whatever depth it appears. Each segment must be a plain name that already
//! exists in the folder reached so far, so the walk can only land where the
//! folder tree and its shortcuts lead.
//!
//! The filesystem is consulted outside: a `Resolver` says what it needs to
//! know next (a `Request`) and takes the answer (an `Answer`), until it is done.

use vstd::prelude::*;
use crate::paths::{joined, path_join};
use crate::saves::{is_lnk, names_shortcut};
use crate::steamcmd::result_view;
use crate::text::{
    in_class, join, join_strings, lemma_join_split, lemma_split_by_nonempty, lemma_split_pieces_avoid_class, owned, push_str, replace_class, replaced, split_by,
    split_class, str_eq, to_chars, trim, trim_class, trim_end, trim_start, views, CharClass,
};

verus! {

/// What a resolver needs to know next, or its result.
pub enum Request {
    /// The saves root, or why it is unusable.
    SavesRoot,
    /// Whether this path exists.
    Exists(String),
    /// The folder this shortcut file points at, or why it cannot be read.
    ReadShortcut(String),
    /// This path with every link followed, or the error doing so.
    Canonicalize(String),
    /// Whether this path is a folder.
    IsDir(String),
    /// The resolved folder, or why there is none.
    Done(Result<String, String>),
}

/// The answer to a `Request`.
pub enum Answer {
    Root(Result<String, String>),
    Exists(bool),
    Target(Result<String, String>),
    IsDir(bool),
}

/// Where a resolver stands.
pub enum Phase {
    AwaitRoot,
    /// Waiting to hear whether the segment exists as named.
    AwaitDirect,
    /// Waiting to hear whether the segment exists as a `.lnk` file.
    AwaitShortcutFile,
    AwaitShortcut,
    AwaitCanonical,
    AwaitIsDir,
    Finished,
}

/// A resolver's state.
pub struct ResolveState {
    /// The path after trimming and turning `\` into `/`.
    pub path: Seq<char>,
    pub segments: Seq<Seq<char>>,
    /// The segment being resolved.
    pub index: nat,
    /// The folder reached so far.
    pub current: Seq<char>,
    /// The path last asked about.
    pub probe: Seq<char>,
    pub phase: Phase,
    pub windows: bool,
}

/// A request as text.
pub enum Asked {
    SavesRoot,
    Exists(Seq<char>),
    ReadShortcut(Seq<char>),
    Canonicalize(Seq<char>),
    IsDir(Seq<char>),
    Done(Result<Seq<char>, Seq<char>>),
}

/// An answer as text.
pub enum Told {
    Root(Result<Seq<char>, Seq<char>>),
    Exists(bool),
    Target(Result<Seq<char>, Seq<char>>),
    IsDir(bool),
}

/// A request as text.
pub open spec fn asked(r: Request) -> Asked {
    match r {
        Request::SavesRoot => Asked::SavesRoot,
        Request::Exists(p) => Asked::Exists(p@),
        Request::ReadShortcut(p) => Asked::ReadShortcut(p@),
        Request::Canonicalize(p) => Asked::Canonicalize(p@),
        Request::IsDir(p) => Asked::IsDir(p@),
        Request::Done(res) => Asked::Done(result_view(res)),
    }
}

/// An answer as text.
pub open spec fn told(a: Answer) -> Told {
    match a {
        Answer::Root(res) => Told::Root(result_view(res)),
        Answer::Exists(b) => Told::Exists(b),
        Answer::Target(res) => Told::Target(result_view(res)),
        Answer::IsDir(b) => Told::IsDir(b),
    }
}

/// The path as resolution reads it: trimmed, without leading or trailing
/// `/`, and with `\` turned into `/`.
pub open spec fn normalized(path: Seq<char>) -> Seq<char> {
    replaced(
        trim(trim(path, CharClass::WhiteSpace), CharClass::Exactly('/')),
        CharClass::Exactly('\\'),
        '/',
    )
}

/// `c` is an ASCII letter.
pub open spec fn is_ascii_letter(c: char) -> bool {
    ('a' <= c <= 'z') || ('A' <= c <= 'Z')
}

/// `seg` is one plain folder name: not `.` or `..`, and on Windows not a
/// drive such as `C:`.
pub open spec fn plain_segment(seg: Seq<char>, windows: bool) -> bool {
    &&& seg != seq!['.']
    &&& seg != seq!['.', '.']
    &&& !(windows && seg.len() >= 2 && seg[1] == ':' && is_ascii_letter(seg[0]))
}

/// How resolution starts.
pub open spec fn resolve_start(path: Seq<char>, windows: bool) -> (ResolveState, Asked) {
    let norm = normalized(path);
    let s = ResolveState {
        path: norm,
        segments: split_by(norm, CharClass::Exactly('/')),
        index: 0,
        current: Seq::empty(),
        probe: Seq::empty(),
        phase: Phase::AwaitRoot,
        windows,
    };
    if norm.len() == 0 {
        (
            ResolveState { phase: Phase::Finished, ..s },
            Asked::Done(Err("Empty path. Try something like `Palworld_Server/Saved`."@)),
        )
    } else {
        (s, Asked::SavesRoot)
    }
}

/// Begins the segment at `s.index` from the folder `s.current`, or finishes
/// with the check that the last folder reached is a folder.
pub open spec fn enter_segment(s: ResolveState) -> (ResolveState, Asked) {
    if s.index >= s.segments.len() {
        (ResolveState { phase: Phase::AwaitIsDir, ..s }, Asked::IsDir(s.current))
    } else {
        let seg = s.segments[s.index as int];
        if seg.len() == 0 {
            (
                ResolveState { phase: Phase::Finished, ..s },
                Asked::Done(Err("`"@ + s.path + "` has an empty path segment"@)),
            )
        } else if !plain_segment(seg, s.windows) {
            (
                ResolveState { phase: Phase::Finished, ..s },
                Asked::Done(
                    Err("`"@ + seg + "` is not allowed in a path \u{2014} only plain folder names are."@),
                ),
            )
        } else {
            let direct = joined(s.current, seg, s.windows);
            (ResolveState { phase: Phase::AwaitDirect, probe: direct, ..s }, Asked::Exists(direct))
        }
    }
}

/// The answer `t` is the kind the resolver is waiting for.
pub open spec fn fits(s: ResolveState, t: Told) -> bool {
    match s.phase {
        Phase::AwaitRoot => t is Root,
        Phase::AwaitDirect => t is Exists,
        Phase::AwaitShortcutFile => t is Exists,
        Phase::AwaitShortcut => t is Target,
        Phase::AwaitCanonical => t is Target,
        Phase::AwaitIsDir => t is IsDir,
        Phase::Finished => false,
    }
}

/// One step of resolution: the state after answer `t`, and what comes next.
pub open spec fn resolve_step(s: ResolveState, t: Told) -> (ResolveState, Asked) {
    let finished = ResolveState { phase: Phase::Finished, ..s };
    match t {
        Told::Root(Err(e)) => (finished, Asked::Done(Err(e))),
        Told::Root(Ok(root)) => enter_segment(ResolveState { current: root, index: 0, ..s }),
        Told::Exists(true) => if s.phase is AwaitDirect && !names_shortcut(s.probe, s.windows) {
            (ResolveState { phase: Phase::AwaitCanonical, ..s }, Asked::Canonicalize(s.probe))
        } else {
            (ResolveState { phase: Phase::AwaitShortcut, ..s }, Asked::ReadShortcut(s.probe))
        },
        Told::Exists(false) => {
            let seg = s.segments[s.index as int];
            if s.phase is AwaitDirect {
                let lnk = joined(s.current, seg + ".lnk"@, s.windows);
                (ResolveState { phase: Phase::AwaitShortcutFile, probe: lnk, ..s }, Asked::Exists(lnk))
            } else {
                (
                    finished,
                    Asked::Done(
                        Err("`"@ + seg + "` does not exist in "@ + s.current
                            + ". Use /list_saves to see what's available."@),
                    ),
                )
            }
        },
        Told::Target(Ok(target)) => enter_segment(
            ResolveState { current: target, index: s.index + 1, ..s },
        ),
        Told::Target(Err(e)) => if s.phase is AwaitCanonical {
            (finished, Asked::Done(Err(s.probe + " is unreachable: "@ + e)))
        } else {
            (finished, Asked::Done(Err(e)))
        },
        Told::IsDir(true) => (finished, Asked::Done(Ok(s.current))),
        Told::IsDir(false) => (
            finished,
            Asked::Done(Err("`"@ + s.path + "` is a file, not a folder"@)),
        ),
    }
}

/// The resolver is somewhere inside one segment of the path.
pub open spec fn walking(p: Phase) -> bool {
    p is AwaitDirect || p is AwaitShortcutFile || p is AwaitShortcut || p is AwaitCanonical
}

/// The state a resolver in phase `s.phase` keeps consistent: inside a segment,
/// that segment is a plain name and the path last asked about is the name, or
/// the name with `.lnk`, inside the folder reached so far; the final folder
/// check comes only after the last segment.
pub open spec fn state_ok(s: ResolveState) -> bool {
    &&& s.segments == split_by(s.path, CharClass::Exactly('/'))
    &&& walking(s.phase) ==> {
        let seg = s.segments[s.index as int];
        &&& s.index < s.segments.len()
        &&& seg.len() > 0
        &&& plain_segment(seg, s.windows)
        &&& s.phase is AwaitDirect ==> s.probe == joined(s.current, seg, s.windows)
        &&& s.phase is AwaitShortcutFile ==> s.probe == joined(s.current, seg + ".lnk"@, s.windows)
        &&& s.probe == joined(s.current, seg, s.windows) || s.probe == joined(
            s.current,
            seg + ".lnk"@,
            s.windows,
        )
    }
    &&& s.phase is AwaitIsDir ==> s.index >= s.segments.len()
}

/// Leading characters of `class` are trimmed away up to the first one outside
/// it.
proof fn lemma_trim_start_skips(a: Seq<char>, b: Seq<char>, class: CharClass)
    requires
        forall|i: int| 0 <= i < a.len() ==> in_class(#[trigger] a[i], class),
        b.len() == 0 || !in_class(b[0], class),
    ensures
        trim_start(a + b, class) == b,
    decreases a.len(),
{
    if a.len() == 0 {
        assert(a + b =~= b);
    } else {
        assert((a + b).drop_first() =~= a.drop_first() + b);
        assert forall|i: int| 0 <= i < a.drop_first().len() implies in_class(
            #[trigger] a.drop_first()[i],
            class,
        ) by {
            assert(a.drop_first()[i] == a[i + 1]);
        }
        lemma_trim_start_skips(a.drop_first(), b, class);
    }
}

/// Trailing characters of `class` are trimmed away back to the last one
/// outside it.
proof fn lemma_trim_end_skips(a: Seq<char>, b: Seq<char>, class: CharClass)
    requires
        forall|i: int| 0 <= i < b.len() ==> in_class(#[trigger] b[i], class),
        a.len() == 0 || !in_class(a.last(), class),
    ensures
        trim_end(a + b, class) == a,
    decreases b.len(),
{
    if b.len() == 0 {
        assert(a + b =~= a);
    } else {
        assert((a + b).drop_last() =~= a + b.drop_last());
        assert forall|i: int| 0 <= i < b.drop_last().len() implies in_class(
            #[trigger] b.drop_last()[i],
            class,
        ) by {
            assert(b.drop_last()[i] == b[i]);
        }
        lemma_trim_end_skips(a, b.drop_last(), class);
    }
}

/// `c` may start or end a path that resolution reads unchanged.
pub open spec fn edge_char(c: char) -> bool {
    !in_class(c, CharClass::WhiteSpace) && c != '/' && c != '\\'
}

/// A path without blanks, `/` or a backslash at either end is read as it is,
/// but for backslashes turned into `/`.
proof fn lemma_plain_edges_normalize(t: Seq<char>)
    requires
        t.len() > 0 ==> edge_char(t[0]) && edge_char(t.last()),
    ensures
        normalized(t) == replaced(t, CharClass::Exactly('\\'), '/'),
{
    let e = Seq::<char>::empty();
    lemma_trim_start_skips(e, t, CharClass::WhiteSpace);
    lemma_trim_end_skips(t, e, CharClass::WhiteSpace);
    lemma_trim_start_skips(e, t, CharClass::Exactly('/'));
    lemma_trim_end_skips(t, e, CharClass::Exactly('/'));
    assert(e + t =~= t);
    assert(t + e =~= t);
}

/// Surrounding blanks and slashes do not change a resolution, and a backslash
/// separates segments just as `/` does: for a path `t` without blanks, `/`
/// or a backslash at either end, `"  /" + t + "/  "` and `t` with every `/`
/// turned into a backslash start the very same resolution as `t`.
pub proof fn lemma_resolution_ignores_edges_and_separators(t: Seq<char>, windows: bool)
    requires
        t.len() > 0 ==> edge_char(t[0]) && edge_char(t.last()),
    ensures
        resolve_start("  /"@ + t + "/  "@, windows) == resolve_start(t, windows),
        resolve_start(replaced(t, CharClass::Exactly('/'), '\\'), windows) == resolve_start(t, windows),
{
    reveal_strlit("  /");
    reveal_strlit("/  ");
    let ws = CharClass::WhiteSpace;
    let sl = CharClass::Exactly('/');
    let padded = "  /"@ + t + "/  "@;
    // Blanks go first.
    let inner = seq!['/'] + t + seq!['/'];
    assert(padded =~= seq![' ', ' '] + (inner + seq![' ', ' ']));
    assert(in_class(' ', ws));
    assert(!in_class('/', ws));
    assert((inner + seq![' ', ' '])[0] == '/');
    lemma_trim_start_skips(seq![' ', ' '], inner + seq![' ', ' '], ws);
    assert(inner.last() == '/');
    lemma_trim_end_skips(inner, seq![' ', ' '], ws);
    // Then the slashes.
    if t.len() > 0 {
        assert((t + seq!['/'])[0] == t[0]);
        assert(inner =~= seq!['/'] + (t + seq!['/']));
        lemma_trim_start_skips(seq!['/'], t + seq!['/'], sl);
        lemma_trim_end_skips(t, seq!['/'], sl);
    } else {
        assert(inner =~= seq!['/', '/'] + Seq::<char>::empty());
        lemma_trim_start_skips(seq!['/', '/'], Seq::<char>::empty(), sl);
        assert(trim_end(Seq::<char>::empty(), sl) == Seq::<char>::empty());
    }
    assert(trim(trim(padded, ws), sl) == t);
    lemma_plain_edges_normalize(t);
    assert(normalized(padded) == normalized(t));
    // Backslashes read as `/`.
    let flipped = replaced(t, sl, '\\');
    if t.len() > 0 {
        assert(flipped[0] == t[0]);
        assert(flipped.last() == t.last());
    }
    lemma_plain_edges_normalize(flipped);
    assert(replaced(flipped, CharClass::Exactly('\\'), '/') =~= replaced(t, CharClass::Exactly('\\'), '/'));
}

/// Resolution walks the names exactly as written. For a path that is not
/// blank, it starts by asking for the saves root, and the segments it will
/// walk are the pieces of the path between `/`s, after trimming blanks, then
/// `/`, and turning each backslash into `/`: put back together with `/` they
/// give that text again, and none holds a `/`, so no character of a name is
/// changed, dropped or added. Once the root is known, the first thing asked
/// is whether the first segment, as written, exists inside the root (when it
/// is a plain name). A blank path is refused at once.
pub proof fn lemma_resolution_walks_the_names_as_written(
    path: Seq<char>,
    windows: bool,
    root: Seq<char>,
)
    ensures
        ({
            let x = replaced(
                trim(trim(path, CharClass::WhiteSpace), CharClass::Exactly('/')),
                CharClass::Exactly('\\'),
                '/',
            );
            let (s, q) = resolve_start(path, windows);
            &&& x.len() == 0 ==> q is Done
            &&& x.len() > 0 ==> {
                &&& q == Asked::SavesRoot
                &&& s.segments.len() >= 1
                &&& join(s.segments, seq!['/']) == x
                &&& forall|i: int| 0 <= i < s.segments.len() ==> !(#[trigger] s.segments[i]).contains('/')
                &&& s.segments[0].len() > 0 && plain_segment(s.segments[0], windows) ==> resolve_step(
                    s,
                    Told::Root(Ok(root)),
                ).1 == Asked::Exists(joined(root, s.segments[0], windows))
            }
        }),
{
    let x = normalized(path);
    let (s, q) = resolve_start(path, windows);
    if x.len() > 0 {
        lemma_split_by_nonempty(x, CharClass::Exactly('/'));
        lemma_join_split(x, '/');
        lemma_split_pieces_avoid_class(x, CharClass::Exactly('/'));
        assert forall|i: int| 0 <= i < s.segments.len() implies !(#[trigger] s.segments[i]).contains('/') by {
            if s.segments[i].contains('/') {
                let j = choose|j: int| 0 <= j < s.segments[i].len() && s.segments[i][j] == '/';
                assert(in_class(s.segments[i][j], CharClass::Exactly('/')));
            }
        }
    }
}

/// Every path the resolver asks about is the name of the segment being
/// resolved (a plain name without `/`), or that name with `.lnk`, inside the
/// folder reached so far; a shortcut is read, or a link followed, only at the
/// path just found to exist; and a resolution succeeds only with the folder
/// reached after the last segment, once it is known to be a folder.
pub proof fn lemma_resolution_stays_in_tree(s: ResolveState, t: Told)
    requires
        state_ok(s),
        fits(s, t),
    ensures
        ({
            let (next, q) = resolve_step(s, t);
            &&& state_ok(next)
            &&& q matches Asked::Exists(p) ==> {
                let seg = next.segments[next.index as int];
                &&& next.index < next.segments.len()
                &&& seg.len() > 0
                &&& plain_segment(seg, next.windows)
                &&& !seg.contains('/')
                &&& (p == joined(next.current, seg, next.windows) || p == joined(
                    next.current,
                    seg + ".lnk"@,
                    next.windows,
                ))
            }
            &&& q matches Asked::ReadShortcut(p) ==> p == s.probe && walking(s.phase)
            &&& q matches Asked::Canonicalize(p) ==> p == s.probe && s.phase is AwaitDirect
            &&& q matches Asked::Done(Ok(p)) ==> {
                &&& p == s.current
                &&& s.index >= s.segments.len()
                &&& t == Told::IsDir(true)
            }
        }),
{
    let (next, q) = resolve_step(s, t);
    if q matches Asked::Exists(p) {
        let seg = next.segments[next.index as int];
        lemma_split_pieces_avoid_class(next.path, CharClass::Exactly('/'));
        if seg.contains('/') {
            let j = choose|j: int| 0 <= j < seg.len() && seg[j] == '/';
            assert(in_class(next.segments[next.index as int][j], CharClass::Exactly('/')));
        }
    }
}

/// Resolves one user-facing path, one question at a time.
pub struct Resolver {
    path: String,
    segments: Vec<String>,
    index: usize,
    current: String,
    probe: String,
    phase: Phase,
    windows: bool,
}

impl Resolver {
    pub closed spec fn state(&self) -> ResolveState {
        ResolveState {
            path: self.path@,
            segments: views(self.segments@),
            index: self.index as nat,
            current: self.current@,
            probe: self.probe@,
            phase: self.phase,
            windows: self.windows,
        }
    }

    /// A resolver whose state is consistent.
    pub open spec fn wf(&self) -> bool {
        state_ok(self.state())
    }

    /// Starts resolving `path`; the request says what is needed first.
    pub fn start(path: &str, windows: bool) -> (r: (Resolver, Request))
        ensures
            r.0.wf(),
            (r.0.state(), asked(r.1)) == resolve_start(path@, windows),
    {
        let trimmed = trim_class(path, &CharClass::WhiteSpace);
        let stripped = trim_class(trimmed.as_str(), &CharClass::Exactly('/'));
        let norm = replace_class(stripped.as_str(), &CharClass::Exactly('\\'), '/');
        let segments = split_class(norm.as_str(), &CharClass::Exactly('/'));
        let empty = norm.as_str().unicode_len() == 0;
        let resolver = Resolver {
            path: norm,
            segments,
            index: 0,
            current: String::new(),
            probe: String::new(),
            phase: if empty {
                Phase::Finished
            } else {
                Phase::AwaitRoot
            },
            windows,
        };
        let request = if empty {
            Request::Done(Err(owned("Empty path. Try something like `Palworld_Server/Saved`.")))
        } else {
            Request::SavesRoot
        };
        (resolver, request)
    }

    /// Whether `answer` is the kind this resolver is waiting for.
    pub fn expects(&self, answer: &Answer) -> (b: bool)
        ensures
            b == fits(self.state(), told(*answer)),
    {
        let root = matches!(answer, Answer::Root(_));
        let exists = matches!(answer, Answer::Exists(_));
        let target = matches!(answer, Answer::Target(_));
        let is_dir = matches!(answer, Answer::IsDir(_));
        match self.phase {
            Phase::AwaitRoot => root,
            Phase::AwaitDirect => exists,
            Phase::AwaitShortcutFile => exists,
            Phase::AwaitShortcut => target,
            Phase::AwaitCanonical => target,
            Phase::AwaitIsDir => is_dir,
            Phase::Finished => false,
        }
    }

    fn is_plain(seg: &str, windows: bool) -> (b: bool)
        ensures
            b == plain_segment(seg@, windows),
    {
        let v = to_chars(seg);
        let dot = v.len() == 1 && v[0] == '.';
        let dots = v.len() == 2 && v[0] == '.' && v[1] == '.';
        if dot {
            assert(v@ =~= seq!['.']);
        }
        if dots {
            assert(v@ =~= seq!['.', '.']);
        }
        if !dot {
            assert(v@ != seq!['.']) by {
                if v@ == seq!['.'] {
                    assert(v@[0] == '.');
                }
            }
        }
        if !dots {
            assert(v@ != seq!['.', '.']) by {
                if v@ == seq!['.', '.'] {
                    assert(v@[0] == '.' && v@[1] == '.');
                }
            }
        }
        let drive = windows && v.len() >= 2 && v[1] == ':' && (('a' <= v[0] && v[0] <= 'z') || (
        'A' <= v[0] && v[0] <= 'Z'));
        !dot && !dots && !drive
    }

    /// Moves to the segment at `self.index`, from the folder `self.current`.
    fn enter(&mut self) -> (r: Request)
        requires
            old(self).state().segments == split_by(old(self).state().path, CharClass::Exactly('/')),
        ensures
            final(self).wf(),
            (final(self).state(), asked(r)) == enter_segment(old(self).state()),
    {
        if self.index >= self.segments.len() {
            self.phase = Phase::AwaitIsDir;
            return Request::IsDir(self.current.clone());
        }
        let seg = self.segments[self.index].clone();
        if seg.as_str().unicode_len() == 0 {
            self.phase = Phase::Finished;
            let mut e = owned("`");
            push_str(&mut e, self.path.as_str());
            push_str(&mut e, "` has an empty path segment");
            return Request::Done(Err(e));
        }
        if !Self::is_plain(seg.as_str(), self.windows) {
            self.phase = Phase::Finished;
            let mut e = owned("`");
            push_str(&mut e, seg.as_str());
            push_str(&mut e, "` is not allowed in a path \u{2014} only plain folder names are.");
            return Request::Done(Err(e));
        }
        let direct = path_join(self.current.as_str(), seg.as_str(), self.windows);
        self.probe = direct.clone();
        self.phase = Phase::AwaitDirect;
        Request::Exists(direct)
    }

    /// Takes the answer to the last request; the result says what is needed next.
    pub fn advance(&mut self, answer: Answer) -> (r: Request)
        requires
            old(self).wf(),
            fits(old(self).state(), told(answer)),
        ensures
            final(self).wf(),
            (final(self).state(), asked(r)) == resolve_step(old(self).state(), told(answer)),
    {
        match answer {
            Answer::Root(Err(e)) => {
                self.phase = Phase::Finished;
                Request::Done(Err(e))
            },
            Answer::Root(Ok(root)) => {
                self.current = root;
                self.index = 0;
                self.enter()
            },
            Answer::Exists(true) => {
                let direct = match self.phase {
                    Phase::AwaitDirect => true,
                    _ => false,
                };
                if direct && !is_lnk(self.probe.as_str(), self.windows) {
                    self.phase = Phase::AwaitCanonical;
                    Request::Canonicalize(self.probe.clone())
                } else {
                    self.phase = Phase::AwaitShortcut;
                    Request::ReadShortcut(self.probe.clone())
                }
            },
            Answer::Exists(false) => {
                let seg = self.segments[self.index].clone();
                let direct = match self.phase {
                    Phase::AwaitDirect => true,
                    _ => false,
                };
                if direct {
                    let mut name = owned(seg.as_str());
                    push_str(&mut name, ".lnk");
                    let lnk = path_join(self.current.as_str(), name.as_str(), self.windows);
                    self.probe = lnk.clone();
                    self.phase = Phase::AwaitShortcutFile;
                    Request::Exists(lnk)
                } else {
                    self.phase = Phase::Finished;
                    let mut e = owned("`");
                    push_str(&mut e, seg.as_str());
                    push_str(&mut e, "` does not exist in ");
                    push_str(&mut e, self.current.as_str());
                    push_str(&mut e, ". Use /list_saves to see what's available.");
                    Request::Done(Err(e))
                }
            },
            Answer::Target(Ok(target)) => {
                assert(views(self.segments@).len() == self.segments@.len());
                assert(self.index < self.segments.len());
                self.current = target;
                self.index = self.index + 1;
                self.enter()
            },
            Answer::Target(Err(e)) => {
                let canonical = match self.phase {
                    Phase::AwaitCanonical => true,
                    _ => false,
                };
                self.phase = Phase::Finished;
                if canonical {
                    let mut m = owned(self.probe.as_str());
                    push_str(&mut m, " is unreachable: ");
                    push_str(&mut m, e.as_str());
                    Request::Done(Err(m))
                } else {
                    Request::Done(Err(e))
                }
            },
            Answer::IsDir(true) => {
                self.phase = Phase::Finished;
                Request::Done(Ok(self.current.clone()))
            },
            Answer::IsDir(false) => {
                self.phase = Phase::Finished;
                let mut e = owned("`");
                push_str(&mut e, self.path.as_str());
                push_str(&mut e, "` is a file, not a folder");
                Request::Done(Err(e))
            },
        }
    }
}

/// A user-facing path split for a leaf that may not exist yet: the path
/// before its last segment, and that last segment, when it is a plain name.
pub open spec fn leaf_split(path: Seq<char>, windows: bool) -> Option<(Seq<char>, Seq<char>)> {
    let segs = split_by(normalized(path), CharClass::Exactly('/'));
    let leaf = segs.last();
    if normalized(path).len() > 0 && leaf.len() > 0 && plain_segment(leaf, windows) {
        Some((join(segs.drop_last(), seq!['/']), leaf))
    } else {
        None
    }
}

/// The first segment of a user-facing path: the entry of the saves root it
/// starts from.
pub open spec fn entry_of(path: Seq<char>) -> Seq<char> {
    split_by(normalized(path), CharClass::Exactly('/'))[0]
}

/// The path before the last segment and the last segment, put back
/// together with `/`, give the path as resolution reads it (trimmed of
/// blanks, then of `/`, with each backslash turned into `/`): the parent is
/// every segment but the last, not some of them; and the last segment is a
/// non-empty name without `/`.
pub proof fn lemma_leaf_split_rebuilds_the_path(path: Seq<char>, windows: bool)
    ensures
        leaf_split(path, windows) matches Some((parent, leaf)) ==> {
            let x = replaced(
                trim(trim(path, CharClass::WhiteSpace), CharClass::Exactly('/')),
                CharClass::Exactly('\\'),
                '/',
            );
            &&& x == parent + seq!['/'] + leaf || (parent.len() == 0 && x == leaf)
            &&& leaf.len() > 0
            &&& !leaf.contains('/')
        },
{
    let x = normalized(path);
    let segs = split_by(x, CharClass::Exactly('/'));
    lemma_split_by_nonempty(x, CharClass::Exactly('/'));
    lemma_join_split(x, '/');
    lemma_split_pieces_avoid_class(x, CharClass::Exactly('/'));
    if let Some((parent, leaf)) = leaf_split(path, windows) {
        let k = segs.len() - 1;
        assert(leaf == segs[k]);
        if leaf.contains('/') {
            let j = choose|j: int| 0 <= j < leaf.len() && leaf[j] == '/';
            assert(in_class(segs[k][j], CharClass::Exactly('/')));
        }
        if segs.len() == 1 {
            assert(segs.drop_last() =~= Seq::<Seq<char>>::empty());
        }
    }
}

/// Splits a user-facing path into the path before its last segment and that
/// segment, for resolving a leaf that may not exist yet; none when the last
/// segment is not a plain name.
pub fn split_leaf(path: &str, windows: bool) -> (r: Option<(String, String)>)
    ensures
        match r {
            Some((parent, leaf)) => leaf_split(path@, windows) == Some((parent@, leaf@)),
            None => leaf_split(path@, windows) is None,
        },
{
    let trimmed = trim_class(path, &CharClass::WhiteSpace);
    let stripped = trim_class(trimmed.as_str(), &CharClass::Exactly('/'));
    let norm = replace_class(stripped.as_str(), &CharClass::Exactly('\\'), '/');
    let mut segments = split_class(norm.as_str(), &CharClass::Exactly('/'));
    proof {
        lemma_split_by_nonempty(norm@, CharClass::Exactly('/'));
    }
    let ghost segs = views(segments@);
    let leaf = match segments.pop() {
        Some(l) => l,
        None => return None,
    };
    assert(views(segments@) =~= segs.drop_last());
    if norm.as_str().unicode_len() == 0 || leaf.as_str().unicode_len() == 0 || !Resolver::is_plain(
        leaf.as_str(),
        windows,
    ) {
        return None;
    }
    let parent = join_strings(&segments, "/");
    proof {
        reveal_strlit("/");
        assert("/"@ =~= seq!['/']);
    }
    Some((parent, leaf))
}

/// The first segment of a user-facing path.
pub fn path_entry(path: &str) -> (r: String)
    ensures
        r@ == entry_of(path@),
{
    let trimmed = trim_class(path, &CharClass::WhiteSpace);
    let stripped = trim_class(trimmed.as_str(), &CharClass::Exactly('/'));
    let norm = replace_class(stripped.as_str(), &CharClass::Exactly('\\'), '/');
    let mut segments = split_class(norm.as_str(), &CharClass::Exactly('/'));
    proof {
        lemma_split_by_nonempty(norm@, CharClass::Exactly('/'));
    }
    segments.swap_remove(0)
}

/// Starts resolving a user-facing path (`entry/sub/folder`) to an absolute
/// folder; drive the returned resolver with `Resolver::advance` until it
/// answers `Request::Done`.
pub fn resolve(path: &str, windows: bool) -> (r: (Resolver, Request))
    ensures
        r.0.wf(),
        (r.0.state(), asked(r.1)) == resolve_start(path@, windows),
{
    Resolver::start(path, windows)
}

} // verus!
