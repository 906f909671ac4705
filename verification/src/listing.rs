//! The `/list_saves` listing: one row per directory entry, folders and
//! shortcuts first, clipped to fit in one Discord message.

use vstd::prelude::*;
use crate::numfmt::{
    as_f64, f64_value, fixed_point, lemma_utf8_len_ascii, lemma_utf8_len_concat, push_fixed_point,
    utf8_len, utf8_len_capped,
};
use crate::text::{
    decimal, in_base, opt_view, lemma_lex_lt_asymmetric, lemma_lex_lt_transitive, lex_less, lex_lt, owned,
    push_decimal, push_str, to_chars, trim, CharClass, trim_class,
};

verus! {

broadcast use vstd::seq_lib::group_to_multiset_ensures;

/// Discord rejects messages over 2000 characters; a listing stays under this
/// many bytes, plus its truncation note.
pub const MAX_MESSAGE: usize = 1900;

/// Bytes in a kibibyte.
pub const KB: u64 = 1024;

/// Bytes in a mebibyte.
pub const MB: u64 = 1048576;

/// One line of a listing.
pub struct Row {
    /// Folders and shortcuts sort above plain files.
    pub enterable: bool,
    pub marker: &'static str,
    pub name: String,
    /// Trailing annotation: a size, or where a shortcut points.
    pub detail: String,
}

/// A byte count the way a person reads it: `512 B`, `2.0 KB`, `5.0 MB`.
pub open spec fn human_size_text(bytes: nat) -> Seq<char> {
    if bytes >= MB {
        fixed_point(as_f64(bytes), MB as nat, 1) + " MB"@
    } else if bytes >= KB {
        fixed_point(as_f64(bytes), KB as nat, 1) + " KB"@
    } else {
        decimal(bytes) + " B"@
    }
}

/// A byte count the way a person reads it: `512 B`, `2.0 KB`, `5.0 MB`.
pub fn human_size(bytes: u64) -> (s: String)
    ensures
        s@ == human_size_text(bytes as nat),
{
    let mut s = String::new();
    if bytes >= MB {
        let v = f64_value(bytes);
        push_fixed_point(&mut s, v, MB as u128, 1);
        push_str(&mut s, " MB");
    } else if bytes >= KB {
        let v = f64_value(bytes);
        push_fixed_point(&mut s, v, KB as u128, 1);
        push_str(&mut s, " KB");
    } else {
        push_decimal(&mut s, bytes as u128);
        push_str(&mut s, " B");
    }
    assert(s@ =~= human_size_text(bytes as nat));
    s
}

// ---------------------------------------------------------------------------
// Rendering
// ---------------------------------------------------------------------------

/// The text of one row.
pub open spec fn line_text(r: Row) -> Seq<char> {
    "  "@ + r.marker@ + "  "@ + r.name@ + r.detail@ + "\n"@
}

/// The note that ends a listing cut short, `n` rows before its end.
pub open spec fn more_note(n: nat) -> Seq<char> {
    "  \u{2026} and "@ + decimal(n) + " more\n"@
}

/// What a listing shows below the header when there are no rows.
pub open spec fn empty_note(rows: Seq<Row>) -> Seq<char> {
    if rows.len() == 0 {
        "  (empty)\n"@
    } else {
        Seq::empty()
    }
}

/// `acc` followed by the rows from `i` on, each added only while the text
/// stays within `MAX_MESSAGE` bytes; the first row that would not fit is
/// replaced by a note of how many rows were left out.
pub open spec fn listing_from(acc: Seq<char>, rows: Seq<Row>, i: nat) -> Seq<char>
    decreases rows.len() - i,
{
    if i >= rows.len() {
        acc
    } else {
        let line = line_text(rows[i as int]);
        if utf8_len(acc) + utf8_len(line) > MAX_MESSAGE {
            acc + more_note((rows.len() - i) as nat)
        } else {
            listing_from(acc + line, rows, i + 1)
        }
    }
}

/// The whole listing of `rows` under `header`.
pub open spec fn listing(header: Seq<char>, rows: Seq<Row>) -> Seq<char> {
    listing_from(header + empty_note(rows), rows, 0)
}

/// The text of one row.
pub fn row_line(r: &Row) -> (s: String)
    ensures
        s@ == line_text(*r),
{
    let mut s = String::new();
    push_str(&mut s, "  ");
    push_str(&mut s, r.marker);
    push_str(&mut s, "  ");
    push_str(&mut s, r.name.as_str());
    push_str(&mut s, r.detail.as_str());
    push_str(&mut s, "\n");
    assert(s@ =~= line_text(*r));
    s
}

/// Format rows under `header`, stopping before Discord's message limit.
pub fn render_listing(header: &str, rows: &Vec<Row>) -> (s: String)
    ensures
        s@ == listing(header@, rows@),
{
    let cap: usize = MAX_MESSAGE + 1;
    let mut s = owned(header);
    if rows.len() == 0 {
        push_str(&mut s, "  (empty)\n");
    }
    assert(s@ =~= header@ + empty_note(rows@));
    let mut used = utf8_len_capped(s.as_str(), cap);
    let mut i: usize = 0;
    while i < rows.len()
        invariant
            cap == MAX_MESSAGE + 1,
            i <= rows@.len(),
            listing(header@, rows@) == listing_from(s@, rows@, i as nat),
            used as nat == if utf8_len(s@) < cap { utf8_len(s@) } else { cap as nat },
        decreases rows@.len() - i,
    {
        let line = row_line(&rows[i]);
        let width = utf8_len_capped(line.as_str(), cap);
        if used + width > MAX_MESSAGE {
            let ghost acc = s@;
            push_str(&mut s, "  \u{2026} and ");
            push_decimal(&mut s, (rows.len() - i) as u128);
            push_str(&mut s, " more\n");
            assert(s@ =~= acc + more_note((rows@.len() - i) as nat));
            return s;
        }
        let ghost before = s@;
        push_str(&mut s, line.as_str());
        proof {
            lemma_utf8_len_concat(before, line@);
        }
        used = used + width;
        i = i + 1;
    }
    s
}

} // verus!

verus! {

// ---------------------------------------------------------------------------
// Laws of the listing
// ---------------------------------------------------------------------------

/// The lines of `rows`, one after another.
pub open spec fn lines_text(rows: Seq<Row>) -> Seq<char>
    decreases rows.len(),
{
    if rows.len() == 0 {
        Seq::empty()
    } else {
        lines_text(rows.drop_last()) + line_text(rows.last())
    }
}

/// Decimal digits are ASCII.
pub proof fn lemma_decimal_ascii(n: nat)
    ensures
        forall|i: int| 0 <= i < decimal(n).len() ==> (decimal(n)[i] as u32) < 0x80,
    decreases n,
{
    if n >= 10 {
        lemma_decimal_ascii(n / 10);
        assert(decimal(n) == decimal(n / 10).push(crate::text::digit((n % 10) as int)));
    } else {
        assert(decimal(n) == seq![crate::text::digit(n as int)]);
    }
}

/// A number with fewer digits is no larger in length.
pub proof fn lemma_in_base_len_monotone(n: nat, m: nat, base: nat)
    requires
        n <= m,
        2 <= base <= 16,
    ensures
        in_base(n, base).len() <= in_base(m, base).len(),
    decreases m,
{
    if m >= base && n >= base {
        vstd::arithmetic::div_mod::lemma_div_is_ordered(n as int, m as int, base as int);
        vstd::arithmetic::div_mod::lemma_div_decreases(m as int, base as int);
        lemma_in_base_len_monotone(n / base, m / base, base);
    } else if m >= base {
        vstd::arithmetic::div_mod::lemma_div_decreases(m as int, base as int);
        lemma_in_base_len_at_least_one(m / base, base);
    }
}

proof fn lemma_in_base_len_at_least_one(n: nat, base: nat)
    requires
        2 <= base <= 16,
    ensures
        in_base(n, base).len() >= 1,
    decreases n,
{
    if n >= base {
        vstd::arithmetic::div_mod::lemma_div_decreases(n as int, base as int);
        lemma_in_base_len_at_least_one(n / base, base);
    }
}

/// The truncation note takes sixteen bytes plus one per digit.
pub proof fn lemma_more_note_len(n: nat)
    ensures
        utf8_len(more_note(n)) == 16 + decimal(n).len(),
{
    reveal_strlit("  \u{2026} and ");
    reveal_strlit(" more\n");
    let a: Seq<char> = "  "@;
    reveal_strlit("  ");
    let b: Seq<char> = " and "@;
    reveal_strlit(" and ");
    assert("  \u{2026} and "@ =~= a + seq!['\u{2026}'] + b);
    lemma_utf8_len_ascii(a);
    lemma_utf8_len_ascii(b);
    lemma_utf8_len_ascii(" more\n"@);
    lemma_decimal_ascii(n);
    lemma_utf8_len_ascii(decimal(n));
    lemma_utf8_len_concat(a, seq!['\u{2026}']);
    lemma_utf8_len_concat(a + seq!['\u{2026}'], b);
    lemma_utf8_len_concat("  \u{2026} and "@, decimal(n));
    lemma_utf8_len_concat("  \u{2026} and "@ + decimal(n), " more\n"@);
    assert(seq!['\u{2026}'].drop_first() =~= Seq::<char>::empty());
    assert(('\u{2026}' as u32) == 0x2026u32);
    assert(vstd::utf8::has_width_3_encoding('\u{2026}' as u32));
    assert(vstd::utf8::encode_scalar('\u{2026}' as u32).len() == 3);
    assert(vstd::utf8::encode_utf8(seq!['\u{2026}']) =~= vstd::utf8::encode_scalar('\u{2026}' as u32)
        + vstd::utf8::encode_utf8(Seq::<char>::empty()));
}

proof fn lemma_listing_from_bound(acc: Seq<char>, rows: Seq<Row>, i: nat)
    requires
        utf8_len(acc) <= MAX_MESSAGE,
        i <= rows.len(),
    ensures
        utf8_len(listing_from(acc, rows, i)) <= MAX_MESSAGE + 16 + decimal(rows.len()).len(),
    decreases rows.len() - i,
{
    if i < rows.len() {
        let line = line_text(rows[i as int]);
        if utf8_len(acc) + utf8_len(line) > MAX_MESSAGE {
            let k = (rows.len() - i) as nat;
            lemma_more_note_len(k);
            lemma_utf8_len_concat(acc, more_note(k));
            lemma_in_base_len_monotone(k, rows.len(), 10);
        } else {
            lemma_utf8_len_concat(acc, line);
            lemma_listing_from_bound(acc + line, rows, i + 1);
        }
    }
}

/// A listing whose header fits stays within the limit, give or take the
/// note that counts the rows left out.
pub proof fn lemma_listing_within_limit(header: Seq<char>, rows: Seq<Row>)
    requires
        utf8_len(header + empty_note(rows)) <= MAX_MESSAGE,
    ensures
        utf8_len(listing(header, rows)) <= MAX_MESSAGE + 16 + decimal(rows.len()).len(),
{
    lemma_listing_from_bound(header + empty_note(rows), rows, 0);
}

proof fn lemma_listing_from_shape(acc: Seq<char>, rows: Seq<Row>, i: nat) -> (k: nat)
    requires
        i <= rows.len(),
    ensures
        i <= k <= rows.len(),
        listing_from(acc, rows, i) == acc + lines_text(rows.take(k as int)).skip(
            lines_text(rows.take(i as int)).len() as int,
        ) + (if k < rows.len() {
            more_note((rows.len() - k) as nat)
        } else {
            Seq::empty()
        }),
    decreases rows.len() - i,
{
    let base = lines_text(rows.take(i as int));
    if i >= rows.len() {
        assert(lines_text(rows.take(i as int)).skip(base.len() as int) =~= Seq::<char>::empty());
        assert(listing_from(acc, rows, i) =~= acc + lines_text(rows.take(i as int)).skip(
            base.len() as int,
        ) + Seq::<char>::empty());
        i
    } else {
        let line = line_text(rows[i as int]);
        if utf8_len(acc) + utf8_len(line) > MAX_MESSAGE {
            assert(lines_text(rows.take(i as int)).skip(base.len() as int) =~= Seq::<char>::empty());
            assert(listing_from(acc, rows, i) =~= acc + lines_text(rows.take(i as int)).skip(
                base.len() as int,
            ) + more_note((rows.len() - i) as nat));
            i
        } else {
            let k = lemma_listing_from_shape(acc + line, rows, i + 1);
            assert(rows.take((i + 1) as int).drop_last() =~= rows.take(i as int));
            assert(lines_text(rows.take((i + 1) as int)) == base + line);
            lemma_lines_text_prefix(rows, i + 1, k);
            let whole = lines_text(rows.take(k as int));
            let mid = lines_text(rows.take((i + 1) as int));
            assert(whole.take(mid.len() as int) == mid);
            assert(mid.len() == base.len() + line.len());
            assert forall|t: int| 0 <= t < line.len() implies whole.skip(base.len() as int)[t]
                == line[t] by {
                assert(whole.take(mid.len() as int)[base.len() + t] == mid[base.len() + t]);
            }
            assert(whole.skip(base.len() as int) =~= line + whole.skip(mid.len() as int));
            assert(listing_from(acc, rows, i) =~= acc + whole.skip(base.len() as int) + (if k
                < rows.len() {
                more_note((rows.len() - k) as nat)
            } else {
                Seq::empty()
            }));
            k
        }
    }
}

proof fn lemma_lines_text_prefix(rows: Seq<Row>, j: nat, k: nat)
    requires
        j <= k <= rows.len(),
    ensures
        lines_text(rows.take(k as int)).len() >= lines_text(rows.take(j as int)).len(),
        lines_text(rows.take(k as int)).take(lines_text(rows.take(j as int)).len() as int)
            == lines_text(rows.take(j as int)),
    decreases k - j,
{
    if j < k {
        lemma_lines_text_prefix(rows, j, (k - 1) as nat);
        assert(rows.take(k as int).drop_last() =~= rows.take(k - 1));
        let a = lines_text(rows.take(j as int));
        let b = lines_text(rows.take(k - 1));
        assert(lines_text(rows.take(k as int)) == b + line_text(rows[k - 1]));
        assert((b + line_text(rows[k - 1])).take(a.len() as int) =~= b.take(a.len() as int));
    }
}

/// A listing is its header, then whole rows from the start, then, when any
/// were left out, a note counting them.
pub proof fn lemma_listing_shape(header: Seq<char>, rows: Seq<Row>)
    ensures
        exists|k: nat|
            k <= rows.len() && listing(header, rows) == header + empty_note(rows)
                + #[trigger] lines_text(rows.take(k as int)) + (if k < rows.len() {
                more_note((rows.len() - k) as nat)
            } else {
                Seq::empty()
            }),
{
    let acc = header + empty_note(rows);
    let k = lemma_listing_from_shape(acc, rows, 0);
    assert(rows.take(0) =~= Seq::<Row>::empty());
    assert(lines_text(rows.take(0)).len() == 0);
    assert(lines_text(rows.take(k as int)).skip(0) =~= lines_text(rows.take(k as int)));
    assert(listing(header, rows) == header + empty_note(rows) + lines_text(rows.take(k as int))
        + (if k < rows.len() {
        more_note((rows.len() - k) as nat)
    } else {
        Seq::empty()
    }));
}

} // verus!

verus! {

// ---------------------------------------------------------------------------
// Ordering rows
// ---------------------------------------------------------------------------

/// `a` goes above `b`: enterable rows first, then by name.
pub open spec fn row_before(a: Row, b: Row) -> bool {
    ||| a.enterable && !b.enterable
    ||| a.enterable == b.enterable && lex_lt(a.name@, b.name@)
}

/// No row stands above one that goes before it.
pub open spec fn rows_sorted(rows: Seq<Row>) -> bool {
    forall|i: int, j: int| 0 <= i < j < rows.len() ==> !row_before(rows[j], rows[i])
}

proof fn lemma_row_before_asymmetric(a: Row, b: Row)
    ensures
        !(row_before(a, b) && row_before(b, a)),
{
    lemma_lex_lt_asymmetric(a.name@, b.name@);
}

proof fn lemma_row_before_transitive(a: Row, b: Row, c: Row)
    requires
        row_before(a, b),
        row_before(b, c),
    ensures
        row_before(a, c),
{
    if a.enterable == b.enterable && b.enterable == c.enterable {
        lemma_lex_lt_transitive(a.name@, b.name@, c.name@);
    }
}

proof fn lemma_insert_keeps_sorted(s: Seq<Row>, p: int, x: Row)
    requires
        rows_sorted(s),
        0 <= p <= s.len(),
        forall|k: int| 0 <= k < p ==> !row_before(x, #[trigger] s[k]),
        p < s.len() ==> row_before(x, s[p]),
    ensures
        rows_sorted(s.insert(p, x)),
{
    let t = s.insert(p, x);
    assert forall|i: int, j: int| 0 <= i < j < t.len() implies !row_before(t[j], t[i]) by {
        if j < p {
            assert(t[i] == s[i] && t[j] == s[j]);
        } else if j == p {
            assert(t[i] == s[i]);
        } else if i == p {
            let sj = s[j - 1];
            assert(t[j] == sj);
            if row_before(sj, x) {
                if j - 1 == p {
                    lemma_row_before_asymmetric(x, sj);
                } else {
                    lemma_row_before_transitive(sj, x, s[p]);
                }
            }
        } else if i < p {
            assert(t[i] == s[i] && t[j] == s[j - 1]);
        } else {
            assert(t[i] == s[i - 1] && t[j] == s[j - 1]);
        }
    }
}

/// Where `x` goes among the sorted rows `t`: before the first row it goes
/// above, after every row it does not.
pub open spec fn insert_point(t: Seq<Row>, x: Row) -> nat
    decreases t.len(),
{
    if t.len() == 0 {
        0
    } else if row_before(x, t[0]) {
        0
    } else {
        1 + insert_point(t.drop_first(), x)
    }
}

/// `rows` sorted one row at a time, each placed after every earlier row it
/// does not go above: a stable sort, so rows that tie keep their order.
pub open spec fn stable_sorted(rows: Seq<Row>) -> Seq<Row>
    decreases rows.len(),
{
    if rows.len() == 0 {
        Seq::empty()
    } else {
        let t = stable_sorted(rows.drop_last());
        t.insert(insert_point(t, rows.last()) as int, rows.last())
    }
}

proof fn lemma_insert_point(t: Seq<Row>, x: Row, p: nat)
    requires
        p <= t.len(),
        forall|k: int| 0 <= k < p ==> !row_before(x, #[trigger] t[k]),
        p < t.len() ==> row_before(x, t[p as int]),
    ensures
        insert_point(t, x) == p,
    decreases p,
{
    if p > 0 {
        assert forall|k: int| 0 <= k < p - 1 implies !row_before(x, #[trigger] t.drop_first()[k]) by {
            assert(t.drop_first()[k] == t[k + 1]);
        }
        if p < t.len() {
            assert(t.drop_first()[p - 1] == t[p as int]);
        }
        assert(!row_before(x, t[0]));
        lemma_insert_point(t.drop_first(), x, (p - 1) as nat);
    }
}

/// The place `insert_point` picks: after every row `x` does not go above,
/// before the first one it does.
proof fn lemma_insert_point_places(t: Seq<Row>, x: Row)
    ensures
        insert_point(t, x) <= t.len(),
        forall|k: int| 0 <= k < insert_point(t, x) ==> !row_before(x, #[trigger] t[k]),
        insert_point(t, x) < t.len() ==> row_before(x, t[insert_point(t, x) as int]),
    decreases t.len(),
{
    if t.len() > 0 && !row_before(x, t[0]) {
        lemma_insert_point_places(t.drop_first(), x);
        assert forall|k: int| 0 <= k < insert_point(t, x) implies !row_before(x, #[trigger] t[k]) by {
            if k > 0 {
                assert(t[k] == t.drop_first()[k - 1]);
            }
        }
        if insert_point(t, x) < t.len() {
            assert(t[insert_point(t, x) as int] == t.drop_first()[insert_point(t.drop_first(), x) as int]);
        }
    }
}

/// A stable sort leaves no row above one that goes before it.
proof fn lemma_stable_sorted_is_sorted(rows: Seq<Row>)
    ensures
        rows_sorted(stable_sorted(rows)),
    decreases rows.len(),
{
    if rows.len() > 0 {
        lemma_stable_sorted_is_sorted(rows.drop_last());
        let t = stable_sorted(rows.drop_last());
        lemma_insert_point_places(t, rows.last());
        lemma_insert_keeps_sorted(t, insert_point(t, rows.last()) as int, rows.last());
    }
}

/// A listing puts every enterable row (a folder or a shortcut) above every
/// plain file, and within each of the two groups orders the rows by the
/// whole of their names, character by character in code-point order (the
/// order `String` compares in): no row stands above one of the same group
/// whose name comes first.
pub proof fn lemma_listing_order(rows: Seq<Row>)
    ensures
        ({
            let t = stable_sorted(rows);
            forall|i: int, j: int|
                0 <= i < j < t.len() ==> {
                    &&& (#[trigger] t[i]).enterable || !(#[trigger] t[j]).enterable
                    &&& t[i].enterable == t[j].enterable ==> !lex_lt(t[j].name@, t[i].name@)
                }
        }),
{
    lemma_stable_sorted_is_sorted(rows);
    let t = stable_sorted(rows);
    assert forall|i: int, j: int| 0 <= i < j < t.len() implies {
        &&& (#[trigger] t[i]).enterable || !(#[trigger] t[j]).enterable
        &&& t[i].enterable == t[j].enterable ==> !lex_lt(t[j].name@, t[i].name@)
    } by {
        assert(!row_before(t[j], t[i]));
    }
}

/// Whether `a`, whose name has the characters `a_name`, goes above `b`.
fn goes_before(a: &Row, a_name: &Vec<char>, b: &Row) -> (r: bool)
    requires
        a_name@ == a.name@,
    ensures
        r == row_before(*a, *b),
{
    if a.enterable != b.enterable {
        a.enterable
    } else {
        let b_name = to_chars(b.name.as_str());
        lex_less(a_name, &b_name)
    }
}

/// Enterable things first, then by name within each group; equal rows keep
/// their order.
pub fn sort_rows(rows: Vec<Row>) -> (sorted: Vec<Row>)
    ensures
        sorted@ == stable_sorted(rows@),
        rows_sorted(sorted@),
        sorted@.to_multiset() == rows@.to_multiset(),
        forall|i: int, j: int|
            0 <= i < j < sorted@.len() ==> {
                &&& (#[trigger] sorted@[i]).enterable || !(#[trigger] sorted@[j]).enterable
                &&& sorted@[i].enterable == sorted@[j].enterable ==> !lex_lt(
                    sorted@[j].name@,
                    sorted@[i].name@,
                )
            },
{
    let ghost orig = rows@;
    let mut rest = rows;
    let mut out: Vec<Row> = Vec::new();
    assert(orig.skip(0) == orig);
    assert(orig.take(0) =~= Seq::<Row>::empty());
    while rest.len() > 0
        invariant
            rest@.len() <= orig.len(),
            rest@ == orig.skip(orig.len() - rest@.len()),
            out@.to_multiset() == orig.take(orig.len() - rest@.len()).to_multiset(),
            out@ == stable_sorted(orig.take(orig.len() - rest@.len())),
            rows_sorted(out@),
        decreases rest@.len(),
    {
        let ghost m = orig.len() - rest@.len();
        let x = rest.remove(0);
        assert(x == orig[m]);
        assert(rest@ =~= orig.skip(m + 1));
        assert(orig.take(m + 1) =~= orig.take(m).push(x));
        let x_name = to_chars(x.name.as_str());
        let mut p: usize = 0;
        while p < out.len() && !goes_before(&x, &x_name, &out[p])
            invariant
                x_name@ == x.name@,
                p <= out@.len(),
                forall|k: int| 0 <= k < p ==> !row_before(x, #[trigger] out@[k]),
            decreases out@.len() - p,
        {
            p = p + 1;
        }
        proof {
            lemma_insert_keeps_sorted(out@, p as int, x);
            lemma_insert_point(out@, x, p as nat);
            assert(orig.take(m + 1).drop_last() =~= orig.take(m));
        }
        out.insert(p, x);
    }
    assert(orig.take(orig.len() as int) == orig);
    proof {
        lemma_listing_order(orig);
    }
    out
}

// ---------------------------------------------------------------------------
// Rows from directory entries
// ---------------------------------------------------------------------------

/// What a directory entry turned out to be.
pub enum EntryKind {
    /// A `.lnk` shortcut, with where it points or why that is unknown.
    Shortcut(Result<String, String>),
    /// A folder.
    Directory,
    /// Anything else, with its size in bytes.
    File(u64),
}

/// One directory entry: its file name and what it is.
pub struct Entry {
    pub name: String,
    pub kind: EntryKind,
}

/// `name` without a trailing `.lnk`.
pub open spec fn without_lnk(name: Seq<char>) -> Seq<char> {
    if name.len() >= 4 && name.skip(name.len() - 4) == seq!['.', 'l', 'n', 'k'] {
        name.take(name.len() - 4)
    } else {
        name
    }
}

/// `r` is the row that shows entry `e`.
pub open spec fn row_shows(r: Row, e: Entry) -> bool {
    match e.kind {
        EntryKind::Shortcut(target) => {
            &&& r.enterable
            &&& r.marker@ == "[lnk]"@
            &&& r.name@ == without_lnk(e.name@)
            &&& r.detail@ == match target {
                Ok(t) => " -> "@ + t@,
                Err(why) => " -> unresolved ("@ + why@ + ")"@,
            }
        },
        EntryKind::Directory => {
            &&& r.enterable
            &&& r.marker@ == "[dir]"@
            &&& r.name@ == e.name@ + "/"@
            &&& r.detail@ == Seq::<char>::empty()
        },
        EntryKind::File(size) => {
            &&& !r.enterable
            &&& r.marker@ == "     "@
            &&& r.name@ == e.name@
            &&& r.detail@ == "  ("@ + human_size_text(size as nat) + ")"@
        },
    }
}

fn strip_lnk(name: &str) -> (r: String)
    ensures
        r@ == without_lnk(name@),
{
    let v = to_chars(name);
    let n = v.len();
    if n >= 4 && v[n - 4] == '.' && v[n - 3] == 'l' && v[n - 2] == 'n' && v[n - 1] == 'k' {
        assert(v@.skip(n - 4) =~= seq!['.', 'l', 'n', 'k']);
        let mut out = String::new();
        let mut i: usize = 0;
        while i < n - 4
            invariant
                n == v@.len(),
                n >= 4,
                i <= n - 4,
                out@ == v@.take(i as int),
            decreases n - 4 - i,
        {
            out.push(v[i]);
            i = i + 1;
            assert(v@.take(i as int) == v@.take(i - 1).push(v@[i - 1]));
        }
        out
    } else {
        if n >= 4 {
            assert(v@.skip(n - 4) != seq!['.', 'l', 'n', 'k']) by {
                if v@.skip(n - 4) == seq!['.', 'l', 'n', 'k'] {
                    assert(v@.skip(n - 4)[0] == v@[n - 4]);
                    assert(v@.skip(n - 4)[1] == v@[n - 3]);
                    assert(v@.skip(n - 4)[2] == v@[n - 2]);
                    assert(v@.skip(n - 4)[3] == v@[n - 1]);
                }
            }
        }
        owned(name)
    }
}

/// The row that shows one directory entry.
pub fn entry_row(e: Entry) -> (r: Row)
    ensures
        row_shows(r, e),
{
    match e.kind {
        EntryKind::Shortcut(target) => {
            let mut detail = String::new();
            push_str(&mut detail, " -> ");
            match &target {
                Ok(t) => {
                    push_str(&mut detail, t.as_str());
                },
                Err(why) => {
                    push_str(&mut detail, "unresolved (");
                    push_str(&mut detail, why.as_str());
                    push_str(&mut detail, ")");
                },
            }
            proof {
                reveal_strlit(" -> ");
                reveal_strlit(" -> unresolved (");
                reveal_strlit("unresolved (");
                assert(" -> "@ + "unresolved ("@ =~= " -> unresolved ("@);
            }
            Row { enterable: true, marker: "[lnk]", name: strip_lnk(e.name.as_str()), detail }
        },
        EntryKind::Directory => {
            let mut name = owned(e.name.as_str());
            push_str(&mut name, "/");
            Row { enterable: true, marker: "[dir]", name, detail: String::new() }
        },
        EntryKind::File(size) => {
            let mut detail = String::new();
            push_str(&mut detail, "  (");
            let h = human_size(size);
            push_str(&mut detail, h.as_str());
            push_str(&mut detail, ")");
            Row { enterable: false, marker: "     ", name: e.name, detail }
        },
    }
}

/// `shown[i]` is the row for `entries[i]`, for every `i`.
pub open spec fn rows_show(shown: Seq<Row>, entries: Seq<Entry>) -> bool {
    &&& shown.len() == entries.len()
    &&& forall|i: int| 0 <= i < entries.len() ==> row_shows(#[trigger] shown[i], entries[i])
}

/// Describe every entry of a folder, folders and shortcuts first.
pub fn collect_rows(entries: Vec<Entry>) -> (rows: Vec<Row>)
    ensures
        rows_sorted(rows@),
        exists|shown: Seq<Row>|
            #[trigger] rows_show(shown, entries@) && rows@ == stable_sorted(shown)
                && rows@.to_multiset() == shown.to_multiset(),
{
    let ghost orig = entries@;
    let mut rest = entries;
    let mut shown: Vec<Row> = Vec::new();
    assert(orig.skip(0) == orig);
    while rest.len() > 0
        invariant
            rest@.len() <= orig.len(),
            rest@ == orig.skip(orig.len() - rest@.len()),
            shown@.len() == orig.len() - rest@.len(),
            forall|i: int| 0 <= i < shown@.len() ==> row_shows(#[trigger] shown@[i], orig[i]),
        decreases rest@.len(),
    {
        let ghost m = orig.len() - rest@.len();
        let e = rest.remove(0);
        assert(e == orig[m]);
        assert(rest@ =~= orig.skip(m + 1));
        shown.push(entry_row(e));
    }
    let ghost built = shown@;
    assert(rows_show(built, orig));
    let rows = sort_rows(shown);
    rows
}

} // verus!

verus! {

// ---------------------------------------------------------------------------
// The `/list_saves` reply
// ---------------------------------------------------------------------------

/// The folder a `/list_saves` argument names: the argument trimmed, or none
/// when it is missing or blank.
pub open spec fn requested_folder(arg: Option<Seq<char>>) -> Option<Seq<char>> {
    match arg {
        Some(a) => if trim(a, CharClass::WhiteSpace).len() > 0 {
            Some(trim(a, CharClass::WhiteSpace))
        } else {
            None
        },
        None => None,
    }
}

/// The folder a `/list_saves` argument names: the argument trimmed, or none
/// when it is missing or blank.
pub fn listing_request(arg: Option<String>) -> (r: Option<String>)
    ensures
        r matches Some(p) ==> requested_folder(opt_view(arg)) == Some(p@),
        r is None ==> requested_folder(opt_view(arg)) is None,
{
    match arg {
        Some(a) => {
            let t = trim_class(a.as_str(), &CharClass::WhiteSpace);
            if t.as_str().unicode_len() > 0 {
                Some(t)
            } else {
                None
            }
        },
        None => None,
    }
}

/// The first line of a listing of `dir`, reached through `folder` or, with
/// none, the saves root.
pub open spec fn listing_header(folder: Option<Seq<char>>, dir: Seq<char>) -> Seq<char> {
    match folder {
        Some(p) => "`"@ + p + "` ("@ + dir + "):\n"@,
        None => "Save entries in "@ + dir + ":\n"@,
    }
}

/// The hint that closes a listing.
pub open spec fn listing_footer(folder: Option<Seq<char>>) -> Seq<char> {
    match folder {
        Some(p) => "\nBack this up with `/backup "@ + p + "`, or a single file with `/backup "@ + p
            + "/<file>`."@,
        None => "\nList a folder with `/list_saves <entry>/<subfolder>`."@,
    }
}

/// The whole `/list_saves` reply for `rows` found in `dir`.
pub fn list_saves_message(folder: &Option<String>, dir: &str, rows: &Vec<Row>) -> (s: String)
    ensures
        s@ == listing(listing_header(opt_view(*folder), dir@), rows@) + listing_footer(
            opt_view(*folder),
        ),
{
    let mut header = String::new();
    match folder {
        Some(p) => {
            push_str(&mut header, "`");
            push_str(&mut header, p.as_str());
            push_str(&mut header, "` (");
            push_str(&mut header, dir);
            push_str(&mut header, "):\n");
        },
        None => {
            push_str(&mut header, "Save entries in ");
            push_str(&mut header, dir);
            push_str(&mut header, ":\n");
        },
    }
    assert(header@ =~= listing_header(opt_view(*folder), dir@));
    let mut s = render_listing(header.as_str(), rows);
    let ghost body = s@;
    match folder {
        Some(p) => {
            push_str(&mut s, "\nBack this up with `/backup ");
            push_str(&mut s, p.as_str());
            push_str(&mut s, "`, or a single file with `/backup ");
            push_str(&mut s, p.as_str());
            push_str(&mut s, "/<file>`.");
        },
        None => {
            push_str(&mut s, "\nList a folder with `/list_saves <entry>/<subfolder>`.");
        },
    }
    assert(s@ =~= body + listing_footer(opt_view(*folder)));
    s
}

} // verus!
