//! Filesystem paths as text, split into components the way `std::path` does.
//!
//! A path is read as an optional root separator followed by its components:
//! the pieces between separators, with empty pieces and `.` pieces dropped,
//! except a `.` at the very start. On Windows both `/` and `\` separate, and a
//! drive such as `C:` reads as an ordinary first component. Paths built here
//! use the platform's own separator.

use vstd::prelude::*;
use crate::text::{
    join, join_strings, lemma_split_by_nonempty, owned, push_str, split_by, split_class, to_chars,
    views, CharClass,
};

verus! {

/// The characters that separate components.
pub open spec fn sep_class(windows: bool) -> CharClass {
    if windows {
        CharClass::Slash
    } else {
        CharClass::Exactly('/')
    }
}

/// `c` separates components.
pub open spec fn is_sep(c: char, windows: bool) -> bool {
    c == '/' || (windows && c == '\\')
}

/// The separator that paths built here use.
pub open spec fn main_sep(windows: bool) -> char {
    if windows {
        '\\'
    } else {
        '/'
    }
}

/// `p` starts at the root.
pub open spec fn has_root(p: Seq<char>, windows: bool) -> bool {
    p.len() > 0 && is_sep(p[0], windows)
}

/// `parts` without its empty and `.` pieces.
pub open spec fn keep_named(parts: Seq<Seq<char>>) -> Seq<Seq<char>>
    decreases parts.len(),
{
    if parts.len() == 0 {
        Seq::empty()
    } else {
        let rest = keep_named(parts.drop_last());
        let x = parts.last();
        if x.len() == 0 || x == seq!['.'] {
            rest
        } else {
            rest.push(x)
        }
    }
}

/// The components of `p` after its root, if any.
pub open spec fn components(p: Seq<char>, windows: bool) -> Seq<Seq<char>> {
    let parts = split_by(p, sep_class(windows));
    let rest = keep_named(parts.drop_first());
    if parts[0].len() == 0 {
        rest
    } else {
        seq![parts[0]] + rest
    }
}

/// The path with an optional root and the given components.
pub open spec fn assemble(root: bool, comps: Seq<Seq<char>>, windows: bool) -> Seq<char> {
    (if root {
        seq![main_sep(windows)]
    } else {
        Seq::empty()
    }) + join(comps, seq![main_sep(windows)])
}

/// The last component of `p`, unless it is `.` or `..` or there is none.
pub open spec fn file_name(p: Seq<char>, windows: bool) -> Option<Seq<char>> {
    let c = components(p, windows);
    if c.len() > 0 && c.last() != seq!['.'] && c.last() != seq!['.', '.'] {
        Some(c.last())
    } else {
        None
    }
}

/// The index of the last `.` in `name`, if any.
pub open spec fn last_dot(name: Seq<char>) -> Option<int>
    decreases name.len(),
{
    if name.len() == 0 {
        None
    } else if name.last() == '.' {
        Some(name.len() - 1)
    } else {
        last_dot(name.drop_last())
    }
}

/// What follows the last `.` of the file name, as `Path::extension` gives it:
/// none without a file name, without a `.`, or when the only `.` starts it.
pub open spec fn extension(p: Seq<char>, windows: bool) -> Option<Seq<char>> {
    match file_name(p, windows) {
        Some(name) => match last_dot(name) {
            Some(i) => if i == 0 {
                None
            } else {
                Some(name.skip(i + 1))
            },
            None => None,
        },
        None => None,
    }
}

/// `p` without its last component, as `Path::parent` gives it: none for an
/// empty path or a bare root.
pub open spec fn parent(p: Seq<char>, windows: bool) -> Option<Seq<char>> {
    let c = components(p, windows);
    if c.len() == 0 {
        None
    } else {
        Some(assemble(has_root(p, windows), c.drop_last(), windows))
    }
}

/// `rel` appended to `base`, as `PathBuf::push` does it: an absolute `rel`
/// replaces `base`, and a separator goes between them when `base` does not
/// already end in one.
pub open spec fn joined(base: Seq<char>, rel: Seq<char>, windows: bool) -> Seq<char> {
    if has_root(rel, windows) {
        rel
    } else if base.len() == 0 || is_sep(base.last(), windows) {
        base + rel
    } else {
        base + seq![main_sep(windows)] + rel
    }
}

/// `base` is a leading run of `p`'s components, root included.
pub open spec fn starts_with(p: Seq<char>, base: Seq<char>, windows: bool) -> bool {
    let pc = components(p, windows);
    let bc = components(base, windows);
    &&& has_root(p, windows) == has_root(base, windows)
    &&& bc.len() <= pc.len()
    &&& pc.take(bc.len() as int) == bc
}

/// What is left of `p` after `base`, as `Path::strip_prefix` gives it.
pub open spec fn strip_prefix(p: Seq<char>, base: Seq<char>, windows: bool) -> Option<Seq<char>> {
    if starts_with(p, base, windows) {
        let pc = components(p, windows);
        Some(join(pc.skip(components(base, windows).len() as int), seq![main_sep(windows)]))
    } else {
        None
    }
}

// ---------------------------------------------------------------------------
// Executable path operations
// ---------------------------------------------------------------------------

fn sep_class_exec(windows: bool) -> (c: CharClass)
    ensures
        c == sep_class(windows),
{
    if windows {
        CharClass::Slash
    } else {
        CharClass::Exactly('/')
    }
}

fn main_sep_str(windows: bool) -> (s: &'static str)
    ensures
        s@ == seq![main_sep(windows)],
{
    if windows {
        proof {
            reveal_strlit("\\");
        }
        "\\"
    } else {
        proof {
            reveal_strlit("/");
        }
        "/"
    }
}

fn is_sep_exec(c: char, windows: bool) -> (b: bool)
    ensures
        b == is_sep(c, windows),
{
    c == '/' || (windows && c == '\\')
}

/// Whether `p` starts at the root.
pub fn is_rooted(p: &str, windows: bool) -> (b: bool)
    ensures
        b == has_root(p@, windows),
{
    let v = to_chars(p);
    v.len() > 0 && is_sep_exec(v[0], windows)
}

fn is_dot(s: &str) -> (b: bool)
    ensures
        b == (s@ == seq!['.']),
{
    let v = to_chars(s);
    let r = v.len() == 1 && v[0] == '.';
    if r {
        assert(v@ =~= seq!['.']);
    }
    r
}

/// The components of `p` after its root, if any.
pub fn path_components(p: &str, windows: bool) -> (c: Vec<String>)
    ensures
        views(c@) == components(p@, windows),
{
    let class = sep_class_exec(windows);
    let parts = split_class(p, &class);
    proof {
        lemma_split_by_nonempty(p@, sep_class(windows));
    }
    let ghost pv = views(parts@);
    let mut out: Vec<String> = Vec::new();
    let head_len = parts[0].as_str().unicode_len();
    if head_len > 0 {
        out.push(parts[0].clone());
    }
    let ghost head = if head_len > 0 {
        seq![pv[0]]
    } else {
        Seq::<Seq<char>>::empty()
    };
    assert(views(out@) =~= head);
    let mut i: usize = 1;
    assert(pv.drop_first().take(0) =~= Seq::<Seq<char>>::empty());
    while i < parts.len()
        invariant
            1 <= i <= parts@.len(),
            pv == views(parts@),
            pv == split_by(p@, sep_class(windows)),
            views(out@) == head + keep_named(pv.drop_first().take(i - 1)),
        decreases parts@.len() - i,
    {
        let ghost prefix = pv.drop_first().take(i as int);
        assert(prefix.drop_last() =~= pv.drop_first().take(i - 1));
        assert(prefix.last() == parts@[i as int]@);
        let part = &parts[i];
        if part.as_str().unicode_len() > 0 && !is_dot(part.as_str()) {
            let ghost before = views(out@);
            out.push(part.clone());
            assert(views(out@) =~= before.push(part@));
        }
        i = i + 1;
    }
    assert(pv.drop_first().take(parts@.len() - 1) =~= pv.drop_first());
    out
}

/// The path with an optional root and the given components.
pub fn assemble_path(root: bool, comps: &Vec<String>, windows: bool) -> (p: String)
    ensures
        p@ == assemble(root, views(comps@), windows),
{
    let sep = main_sep_str(windows);
    let mut out = String::new();
    if root {
        push_str(&mut out, sep);
    }
    let rest = join_strings(comps, sep);
    push_str(&mut out, rest.as_str());
    out
}

/// The last component of `p`, unless it is `.` or `..` or there is none.
pub fn path_file_name(p: &str, windows: bool) -> (r: Option<String>)
    ensures
        opt_seq(r) == file_name(p@, windows),
{
    let mut comps = path_components(p, windows);
    if comps.len() == 0 {
        return None;
    }
    let last = comps.pop().unwrap();
    let v = to_chars(last.as_str());
    let named = !(v.len() == 1 && v[0] == '.') && !(v.len() == 2 && v[0] == '.' && v[1] == '.');
    if v.len() == 1 && v[0] == '.' {
        assert(v@ =~= seq!['.']);
    }
    if v.len() == 2 && v[0] == '.' && v[1] == '.' {
        assert(v@ =~= seq!['.', '.']);
    }
    if named {
        assert(v@ != seq!['.']) by {
            if v@ == seq!['.'] {
                assert(v@.len() == 1 && v@[0] == '.');
            }
        }
        assert(v@ != seq!['.', '.']) by {
            if v@ == seq!['.', '.'] {
                assert(v@.len() == 2 && v@[0] == '.' && v@[1] == '.');
            }
        }
        Some(last)
    } else {
        None
    }
}

/// The view of an optional string.
pub open spec fn opt_seq(o: Option<String>) -> Option<Seq<char>> {
    match o {
        Some(s) => Some(s@),
        None => None,
    }
}

/// What follows the last `.` of the file name of `p`.
pub fn path_extension(p: &str, windows: bool) -> (r: Option<String>)
    ensures
        opt_seq(r) == extension(p@, windows),
{
    let name = match path_file_name(p, windows) {
        Some(n) => n,
        None => return None,
    };
    let v = to_chars(name.as_str());
    let mut j: usize = v.len();
    assert(v@.take(v@.len() as int) =~= v@);
    while j > 0 && v[j - 1] != '.'
        invariant
            j <= v@.len(),
            last_dot(v@) == last_dot(v@.take(j as int)),
        decreases j,
    {
        assert(v@.take(j as int).drop_last() =~= v@.take(j - 1));
        j = j - 1;
    }
    assert(v@.take(v@.len() as int) =~= v@);
    if j == 0 {
        assert(v@.take(0) =~= Seq::<char>::empty());
        return None;
    }
    assert(last_dot(v@.take(j as int)) == Some(j - 1));
    if j - 1 == 0 {
        return None;
    }
    let mut out = String::new();
    let mut k: usize = j;
    while k < v.len()
        invariant
            j <= k <= v@.len(),
            out@ == v@.subrange(j as int, k as int),
        decreases v@.len() - k,
    {
        out.push(v[k]);
        k = k + 1;
        assert(v@.subrange(j as int, k as int) =~= v@.subrange(j as int, k - 1).push(v@[k - 1]));
    }
    assert(v@.subrange(j as int, v@.len() as int) =~= v@.skip(j as int));
    Some(out)
}

/// `p` without its last component; none for an empty path or a bare root.
pub fn path_parent(p: &str, windows: bool) -> (r: Option<String>)
    ensures
        opt_seq(r) == parent(p@, windows),
{
    let mut comps = path_components(p, windows);
    if comps.len() == 0 {
        return None;
    }
    let ghost all = views(comps@);
    comps.pop();
    assert(views(comps@) =~= all.drop_last());
    let root = is_rooted(p, windows);
    Some(assemble_path(root, &comps, windows))
}

/// `rel` appended to `base`, as `PathBuf::push` does it.
pub fn path_join(base: &str, rel: &str, windows: bool) -> (r: String)
    ensures
        r@ == joined(base@, rel@, windows),
{
    if is_rooted(rel, windows) {
        return owned(rel);
    }
    let v = to_chars(base);
    let mut out = owned(base);
    if v.len() > 0 && !is_sep_exec(v[v.len() - 1], windows) {
        push_str(&mut out, main_sep_str(windows));
    }
    push_str(&mut out, rel);
    out
}

/// What is left of `p` after `base`, if `base` is a leading run of its
/// components.
pub fn path_strip_prefix(p: &str, base: &str, windows: bool) -> (r: Option<String>)
    ensures
        opt_seq(r) == strip_prefix(p@, base@, windows),
{
    if is_rooted(p, windows) != is_rooted(base, windows) {
        return None;
    }
    let pc = path_components(p, windows);
    let bc = path_components(base, windows);
    if bc.len() > pc.len() {
        return None;
    }
    let mut i: usize = 0;
    while i < bc.len()
        invariant
            i <= bc@.len() <= pc@.len(),
            views(pc@) == components(p@, windows),
            views(bc@) == components(base@, windows),
            has_root(p@, windows) == has_root(base@, windows),
            forall|k: int| 0 <= k < i ==> pc@[k]@ == bc@[k]@,
        decreases bc@.len() - i,
    {
        if !crate::text::str_eq(pc[i].as_str(), bc[i].as_str()) {
            assert(views(pc@)[i as int] == pc@[i as int]@);
            assert(views(bc@)[i as int] == bc@[i as int]@);
            assert(views(pc@).take(bc@.len() as int)[i as int] != views(bc@)[i as int]);
            assert(views(pc@).take(bc@.len() as int) != views(bc@));
            return None;
        }
        i = i + 1;
    }
    assert(views(pc@).take(bc@.len() as int) =~= views(bc@));
    let mut rest: Vec<String> = Vec::new();
    let mut k: usize = bc.len();
    while k < pc.len()
        invariant
            bc@.len() <= k <= pc@.len(),
            views(rest@) == views(pc@).subrange(bc@.len() as int, k as int),
        decreases pc@.len() - k,
    {
        let ghost before = views(rest@);
        let c = pc[k].clone();
        assert(c@ == views(pc@)[k as int]);
        rest.push(c);
        assert(views(rest@) =~= before.push(c@));
        k = k + 1;
        assert(views(rest@) =~= views(pc@).subrange(bc@.len() as int, k as int));
    }
    assert(views(pc@).subrange(bc@.len() as int, pc@.len() as int) =~= views(pc@).skip(
        bc@.len() as int,
    ));
    let sep = main_sep_str(windows);
    Some(join_strings(&rest, sep))
}

/// Whether `base` is a leading run of `p`'s components, root included.
pub fn path_starts_with(p: &str, base: &str, windows: bool) -> (b: bool)
    ensures
        b == starts_with(p@, base@, windows),
{
    path_strip_prefix(p, base, windows).is_some()
}

} // verus!
