//! Character-level string helpers with exact specifications.
//!
//! Every function here works on the `Seq<char>` view of strings, so the
//! contracts of the rest of the library can speak of text as sequences of
//! Unicode scalar values.

use vstd::prelude::*;

verus! {

/// `String::push` appends one character.
pub assume_specification[ String::push ](s: &mut String, ch: char)
    ensures
        final(s)@ == old(s)@.push(ch),
;

/// The ellipsis that marks clipped text.
pub open spec fn ellipsis() -> char {
    '\u{2026}'
}

/// The views of a sequence of strings.
pub open spec fn views(v: Seq<String>) -> Seq<Seq<char>> {
    v.map_values(|x: String| x@)
}

/// The view of an optional string.
pub open spec fn opt_view(o: Option<String>) -> Option<Seq<char>> {
    match o {
        Some(s) => Some(s@),
        None => None,
    }
}

/// The characters of `s`, in order.
pub fn to_chars(s: &str) -> (v: Vec<char>)
    ensures
        v@ == s@,
{
    let mut v: Vec<char> = Vec::new();
    for c in it: s.chars()
        invariant
            v@ == it.seq().take(it.index() as int),
            it.seq() == s@,
    {
        v.push(c);
    }
    v
}

/// A `String` holding exactly the given characters.
pub fn from_chars(v: &[char]) -> (s: String)
    ensures
        s@ == v@,
{
    let mut s = String::new();
    let mut i: usize = 0;
    while i < v.len()
        invariant
            i <= v@.len(),
            s@ == v@.take(i as int),
        decreases v@.len() - i,
    {
        s.push(v[i]);
        i = i + 1;
        assert(v@.take(i as int) == v@.take(i - 1).push(v@[i - 1]));
    }
    assert(v@.take(v@.len() as int) == v@);
    s
}

/// A fresh `String` with the characters of `t`.
pub fn owned(t: &str) -> (s: String)
    ensures
        s@ == t@,
{
    String::from_str(t)
}

/// Appends `t` to `s`.
pub fn push_str(s: &mut String, t: &str)
    ensures
        final(s)@ == old(s)@ + t@,
{
    s.append(t);
}

/// Whether two strings hold the same characters.
pub fn str_eq(a: &str, b: &str) -> (r: bool)
    ensures
        r == (a@ == b@),
{
    let x = to_chars(a);
    let y = to_chars(b);
    if x.len() != y.len() {
        return false;
    }
    let mut i: usize = 0;
    while i < x.len()
        invariant
            x@ == a@,
            y@ == b@,
            x@.len() == y@.len(),
            i <= x@.len(),
            forall|k: int| 0 <= k < i ==> x@[k] == y@[k],
        decreases x@.len() - i,
    {
        if x[i] != y[i] {
            return false;
        }
        i = i + 1;
    }
    assert(x@ =~= y@);
    true
}

// ---------------------------------------------------------------------------
// Character classes
// ---------------------------------------------------------------------------

/// Unicode's `White_Space` property, the one `char::is_whitespace` tests.
pub open spec fn is_white_space(c: char) -> bool {
    let u = c as u32;
    ||| 0x09 <= u <= 0x0d
    ||| u == 0x20
    ||| u == 0x85
    ||| u == 0xa0
    ||| u == 0x1680
    ||| 0x2000 <= u <= 0x200a
    ||| u == 0x2028
    ||| u == 0x2029
    ||| u == 0x202f
    ||| u == 0x205f
    ||| u == 0x3000
}

/// A set of characters to split, trim or replace at.
pub enum CharClass {
    /// Characters with the `White_Space` property.
    WhiteSpace,
    /// One given character.
    Exactly(char),
    /// Either slash, `/` or `\`.
    Slash,
}

/// `c` belongs to `class`.
pub open spec fn in_class(c: char, class: CharClass) -> bool {
    match class {
        CharClass::WhiteSpace => is_white_space(c),
        CharClass::Exactly(x) => c == x,
        CharClass::Slash => c == '/' || c == '\\',
    }
}

/// Whether `c` belongs to `class`.
pub fn is_in_class(c: char, class: &CharClass) -> (b: bool)
    ensures
        b == in_class(c, *class),
{
    match class {
        CharClass::WhiteSpace => {
            let u = c as u32;
            (0x09 <= u && u <= 0x0d) || u == 0x20 || u == 0x85 || u == 0xa0 || u == 0x1680 || (
            0x2000 <= u && u <= 0x200a) || u == 0x2028 || u == 0x2029 || u == 0x202f || u
                == 0x205f || u == 0x3000
        },
        CharClass::Exactly(x) => c == *x,
        CharClass::Slash => c == '/' || c == '\\',
    }
}

// ---------------------------------------------------------------------------
// Trimming
// ---------------------------------------------------------------------------

/// `s` without its leading characters of `class`.
pub open spec fn trim_start(s: Seq<char>, class: CharClass) -> Seq<char>
    decreases s.len(),
{
    if s.len() > 0 && in_class(s[0], class) {
        trim_start(s.drop_first(), class)
    } else {
        s
    }
}

/// `s` without its trailing characters of `class`.
pub open spec fn trim_end(s: Seq<char>, class: CharClass) -> Seq<char>
    decreases s.len(),
{
    if s.len() > 0 && in_class(s.last(), class) {
        trim_end(s.drop_last(), class)
    } else {
        s
    }
}

/// `s` without leading and trailing characters of `class`.
pub open spec fn trim(s: Seq<char>, class: CharClass) -> Seq<char> {
    trim_end(trim_start(s, class), class)
}

/// The index of the first character of `v` outside `class`, or `v.len()`.
fn start_after(v: &Vec<char>, class: &CharClass) -> (i: usize)
    ensures
        i <= v@.len(),
        i < v@.len() ==> !in_class(v@[i as int], *class),
        trim_start(v@, *class) == v@.skip(i as int),
{
    let mut i: usize = 0;
    assert(v@.skip(0) == v@);
    while i < v.len() && is_in_class(v[i], class)
        invariant
            i <= v@.len(),
            trim_start(v@, *class) == trim_start(v@.skip(i as int), *class),
        decreases v@.len() - i,
    {
        assert(v@.skip(i as int).drop_first() == v@.skip(i + 1));
        i = i + 1;
    }
    i
}

/// The index just past the last character of `v` outside `class`, at least `lo`.
fn end_before(v: &Vec<char>, lo: usize, class: &CharClass) -> (j: usize)
    requires
        lo <= v@.len(),
        lo < v@.len() ==> !in_class(v@[lo as int], *class),
    ensures
        lo <= j <= v@.len(),
        trim_end(v@.skip(lo as int), *class) == v@.subrange(lo as int, j as int),
{
    let mut j: usize = v.len();
    while j > lo && is_in_class(v[j - 1], class)
        invariant
            lo <= j <= v@.len(),
            lo < v@.len() ==> !in_class(v@[lo as int], *class),
            trim_end(v@.skip(lo as int), *class) == trim_end(v@.subrange(lo as int, j as int), *class),
        decreases j,
    {
        assert(v@.subrange(lo as int, j as int).drop_last() == v@.subrange(lo as int, j - 1));
        j = j - 1;
    }
    assert(v@.skip(lo as int) == v@.subrange(lo as int, v@.len() as int));
    j
}

/// `s` without leading and trailing characters of `class`.
pub fn trim_class(s: &str, class: &CharClass) -> (r: String)
    ensures
        r@ == trim(s@, *class),
{
    let v = to_chars(s);
    let i = start_after(&v, class);
    let j = end_before(&v, i, class);
    let mut out: Vec<char> = Vec::new();
    let mut k: usize = i;
    while k < j
        invariant
            i <= k <= j <= v@.len(),
            out@ == v@.subrange(i as int, k as int),
        decreases j - k,
    {
        out.push(v[k]);
        k = k + 1;
        assert(v@.subrange(i as int, k as int) == v@.subrange(i as int, k - 1).push(v@[k - 1]));
    }
    from_chars(out.as_slice())
}

// ---------------------------------------------------------------------------
// Splitting and joining
// ---------------------------------------------------------------------------

/// The pieces of `s` between characters of `class`, as `str::split` gives them:
/// one more piece than there are separators, empty pieces included.
pub open spec fn split_by(s: Seq<char>, class: CharClass) -> Seq<Seq<char>>
    decreases s.len(),
{
    if s.len() == 0 {
        seq![Seq::<char>::empty()]
    } else {
        let rest = split_by(s.drop_last(), class);
        if in_class(s.last(), class) {
            rest.push(Seq::<char>::empty())
        } else {
            rest.update(rest.len() - 1, rest.last().push(s.last()))
        }
    }
}

/// A split always has at least one piece.
pub proof fn lemma_split_by_nonempty(s: Seq<char>, class: CharClass)
    ensures
        split_by(s, class).len() >= 1,
    decreases s.len(),
{
    if s.len() > 0 {
        lemma_split_by_nonempty(s.drop_last(), class);
    }
}

/// No piece of a split holds a character of the class it was split on.
pub proof fn lemma_split_pieces_avoid_class(s: Seq<char>, class: CharClass)
    ensures
        forall|i: int, j: int|
            0 <= i < split_by(s, class).len() && 0 <= j < split_by(s, class)[i].len()
                ==> !in_class(#[trigger] split_by(s, class)[i][j], class),
    decreases s.len(),
{
    if s.len() > 0 {
        lemma_split_pieces_avoid_class(s.drop_last(), class);
        lemma_split_by_nonempty(s.drop_last(), class);
        let rest = split_by(s.drop_last(), class);
        if !in_class(s.last(), class) {
            let last = rest.last().push(s.last());
            assert forall|i: int, j: int|
                0 <= i < split_by(s, class).len() && 0 <= j < split_by(s, class)[i].len()
                    implies !in_class(#[trigger] split_by(s, class)[i][j], class) by {
                if i == rest.len() - 1 {
                    assert(split_by(s, class)[i] == last);
                    if j < rest.last().len() {
                        assert(last[j] == rest[i][j]);
                    }
                } else {
                    assert(split_by(s, class)[i] == rest[i]);
                }
            }
        } else {
            assert forall|i: int, j: int|
                0 <= i < split_by(s, class).len() && 0 <= j < split_by(s, class)[i].len()
                    implies !in_class(#[trigger] split_by(s, class)[i][j], class) by {
                assert(split_by(s, class)[i] == rest.push(Seq::<char>::empty())[i]);
            }
        }
    }
}

/// Adding a character to the last part adds it to the end of the joined text.
proof fn lemma_join_grow_last(parts: Seq<Seq<char>>, sep: Seq<char>, ch: char)
    requires
        parts.len() > 0,
    ensures
        join(parts.update(parts.len() - 1, parts.last().push(ch)), sep) == join(parts, sep).push(ch),
{
    let grown = parts.update(parts.len() - 1, parts.last().push(ch));
    if parts.len() > 1 {
        assert(grown.drop_last() =~= parts.drop_last());
        assert(join(grown, sep) == join(grown.drop_last(), sep) + sep + grown.last());
        assert(join(grown, sep) =~= join(parts, sep).push(ch));
    } else {
        assert(join(grown, sep) == grown[0]);
    }
}

/// Splitting at a character and joining the pieces back with it gives the
/// text back: no character of any piece is changed, dropped or added.
pub proof fn lemma_join_split(s: Seq<char>, c: char)
    ensures
        join(split_by(s, CharClass::Exactly(c)), seq![c]) == s,
    decreases s.len(),
{
    let class = CharClass::Exactly(c);
    if s.len() > 0 {
        lemma_join_split(s.drop_last(), c);
        lemma_split_by_nonempty(s.drop_last(), class);
        let rest = split_by(s.drop_last(), class);
        if in_class(s.last(), class) {
            let more = rest.push(Seq::<char>::empty());
            assert(more.drop_last() =~= rest);
            assert(join(more, seq![c]) == join(rest, seq![c]) + seq![c] + Seq::<char>::empty());
            assert(join(more, seq![c]) =~= s);
        } else {
            lemma_join_grow_last(rest, seq![c], s.last());
            assert(s.drop_last().push(s.last()) =~= s);
        }
    }
}

/// The pieces of `s` between characters of `class`.
pub fn split_class(s: &str, class: &CharClass) -> (r: Vec<String>)
    ensures
        views(r@) == split_by(s@, *class),
{
    let v = to_chars(s);
    let mut parts: Vec<String> = Vec::new();
    let mut cur: Vec<char> = Vec::new();
    let mut i: usize = 0;
    assert(v@.take(0) == Seq::<char>::empty());
    assert(views(parts@).push(cur@) =~= seq![Seq::<char>::empty()]);
    while i < v.len()
        invariant
            i <= v@.len(),
            v@ == s@,
            split_by(v@.take(i as int), *class) == views(parts@).push(cur@),
        decreases v@.len() - i,
    {
        let c = v[i];
        let ghost before = v@.take(i as int);
        assert(v@.take(i + 1).drop_last() == before);
        assert(v@.take(i + 1).last() == c);
        if is_in_class(c, class) {
            let piece = from_chars(cur.as_slice());
            let ghost before_parts = parts@;
            parts.push(piece);
            cur = Vec::new();
            assert(views(parts@) =~= views(before_parts).push(piece@));
            assert(views(parts@).push(cur@) =~= split_by(before, *class).push(Seq::<char>::empty()));
        } else {
            let ghost old_cur = cur@;
            cur.push(c);
            let ghost rest = split_by(before, *class);
            assert(rest.last() == old_cur);
            assert(views(parts@).push(cur@) =~= rest.update(rest.len() - 1, old_cur.push(c)));
        }
        i = i + 1;
    }
    assert(v@.take(v@.len() as int) == v@);
    let last = from_chars(cur.as_slice());
    parts.push(last);
    assert(views(parts@) =~= split_by(s@, *class));
    parts
}

/// `parts` without its empty strings.
pub open spec fn drop_empty(parts: Seq<Seq<char>>) -> Seq<Seq<char>>
    decreases parts.len(),
{
    if parts.len() == 0 {
        Seq::empty()
    } else {
        let rest = drop_empty(parts.drop_last());
        if parts.last().len() > 0 {
            rest.push(parts.last())
        } else {
            rest
        }
    }
}

/// The words of `s`, as `str::split_whitespace` gives them.
pub open spec fn words(s: Seq<char>) -> Seq<Seq<char>> {
    drop_empty(split_by(s, CharClass::WhiteSpace))
}

/// The whitespace-separated words of `s`.
pub fn split_words(s: &str) -> (r: Vec<String>)
    ensures
        views(r@) == words(s@),
{
    let parts = split_class(s, &CharClass::WhiteSpace);
    let mut out: Vec<String> = Vec::new();
    let mut i: usize = 0;
    while i < parts.len()
        invariant
            i <= parts@.len(),
            views(parts@) == split_by(s@, CharClass::WhiteSpace),
            views(out@) == drop_empty(views(parts@).take(i as int)),
        decreases parts@.len() - i,
    {
        let ghost prefix = views(parts@).take(i + 1);
        assert(prefix.drop_last() == views(parts@).take(i as int));
        assert(prefix.last() == parts@[i as int]@);
        let p = &parts[i];
        if p.as_str().unicode_len() > 0 {
            out.push(p.clone());
            assert(views(out@) =~= drop_empty(views(parts@).take(i as int)).push(p@));
        }
        i = i + 1;
    }
    assert(views(parts@).take(parts@.len() as int) == views(parts@));
    out
}

/// `parts` with `sep` between neighbours, as `[&str]::join` gives it.
pub open spec fn join(parts: Seq<Seq<char>>, sep: Seq<char>) -> Seq<char>
    decreases parts.len(),
{
    if parts.len() == 0 {
        Seq::empty()
    } else if parts.len() == 1 {
        parts[0]
    } else {
        join(parts.drop_last(), sep) + sep + parts.last()
    }
}

/// `parts` with `sep` between neighbours.
pub fn join_strings(parts: &Vec<String>, sep: &str) -> (r: String)
    ensures
        r@ == join(views(parts@), sep@),
{
    let mut out = String::new();
    let mut i: usize = 0;
    while i < parts.len()
        invariant
            i <= parts@.len(),
            out@ == join(views(parts@).take(i as int), sep@),
        decreases parts@.len() - i,
    {
        let ghost prefix = views(parts@).take(i + 1);
        assert(prefix.drop_last() == views(parts@).take(i as int));
        if i > 0 {
            push_str(&mut out, sep);
        }
        push_str(&mut out, parts[i].as_str());
        assert(out@ == join(prefix, sep@));
        i = i + 1;
    }
    assert(views(parts@).take(parts@.len() as int) == views(parts@));
    out
}

/// `s` with every character of `class` replaced by `to`.
pub open spec fn replaced(s: Seq<char>, class: CharClass, to: char) -> Seq<char> {
    s.map_values(|c: char| if in_class(c, class) { to } else { c })
}

/// `s` with every character of `class` replaced by `to`.
pub fn replace_class(s: &str, class: &CharClass, to: char) -> (r: String)
    ensures
        r@ == replaced(s@, *class, to),
{
    let v = to_chars(s);
    let mut out = String::new();
    let mut i: usize = 0;
    while i < v.len()
        invariant
            i <= v@.len(),
            v@ == s@,
            out@ == replaced(v@.take(i as int), *class, to),
        decreases v@.len() - i,
    {
        let c = v[i];
        if is_in_class(c, class) {
            out.push(to);
        } else {
            out.push(c);
        }
        i = i + 1;
        assert(out@ =~= replaced(v@.take(i as int), *class, to));
    }
    assert(v@.take(v@.len() as int) == v@);
    out
}

// ---------------------------------------------------------------------------
// Clipping
// ---------------------------------------------------------------------------

/// `s` cut down to at most `max` characters, the last of which is then an
/// ellipsis.
pub open spec fn clip(s: Seq<char>, max: nat) -> Seq<char> {
    if s.len() <= max {
        s
    } else {
        s.take(max - 1).push(ellipsis())
    }
}

/// `text` cut down to at most `max` characters, counted in characters so that
/// no character is split.
pub fn clip_chars(text: &str, max: usize) -> (r: String)
    requires
        max >= 1,
    ensures
        r@ == clip(text@, max as nat),
        r@.len() <= max,
{
    let v = to_chars(text);
    if v.len() <= max {
        return owned(text);
    }
    let mut out = String::new();
    let mut i: usize = 0;
    while i < max - 1
        invariant
            max >= 1,
            v@ == text@,
            v@.len() > max,
            i <= max - 1,
            out@ == v@.take(i as int),
        decreases max - 1 - i,
    {
        out.push(v[i]);
        i = i + 1;
        assert(v@.take(i as int) == v@.take(i - 1).push(v@[i - 1]));
    }
    out.push('\u{2026}');
    out
}

// ---------------------------------------------------------------------------
// Numbers
// ---------------------------------------------------------------------------

/// The decimal digit for `d`.
pub open spec fn digit(d: int) -> char {
    if d == 0 {
        '0'
    } else if d == 1 {
        '1'
    } else if d == 2 {
        '2'
    } else if d == 3 {
        '3'
    } else if d == 4 {
        '4'
    } else if d == 5 {
        '5'
    } else if d == 6 {
        '6'
    } else if d == 7 {
        '7'
    } else if d == 8 {
        '8'
    } else if d == 9 {
        '9'
    } else if d == 10 {
        'a'
    } else if d == 11 {
        'b'
    } else if d == 12 {
        'c'
    } else if d == 13 {
        'd'
    } else if d == 14 {
        'e'
    } else {
        'f'
    }
}

/// `n` written in base `base` (2 to 16), most significant digit first, no
/// leading zeros (`0` is written `"0"`).
pub open spec fn in_base(n: nat, base: nat) -> Seq<char>
    recommends
        2 <= base <= 16,
    decreases n,
    when base >= 2
{
    if n < base {
        seq![digit(n as int)]
    } else {
        proof {
            vstd::arithmetic::div_mod::lemma_div_decreases(n as int, base as int);
        }
        in_base(n / base, base).push(digit((n % base) as int))
    }
}

/// `n` in decimal, as `{}` prints an unsigned integer.
pub open spec fn decimal(n: nat) -> Seq<char> {
    in_base(n, 10)
}

/// `n` in decimal with a minus sign when negative, as `{}` prints a signed integer.
pub open spec fn signed_decimal(n: int) -> Seq<char> {
    if n < 0 {
        seq!['-'] + decimal((-n) as nat)
    } else {
        decimal(n as nat)
    }
}

/// `s` padded on the left with `fill` up to `width` characters.
pub open spec fn pad_left(s: Seq<char>, width: nat, fill: char) -> Seq<char> {
    if s.len() >= width {
        s
    } else {
        Seq::new((width - s.len()) as nat, |_i: int| fill) + s
    }
}

fn digit_char(d: u128) -> (c: char)
    requires
        d < 16,
    ensures
        c == digit(d as int),
{
    if d == 0 {
        '0'
    } else if d == 1 {
        '1'
    } else if d == 2 {
        '2'
    } else if d == 3 {
        '3'
    } else if d == 4 {
        '4'
    } else if d == 5 {
        '5'
    } else if d == 6 {
        '6'
    } else if d == 7 {
        '7'
    } else if d == 8 {
        '8'
    } else if d == 9 {
        '9'
    } else if d == 10 {
        'a'
    } else if d == 11 {
        'b'
    } else if d == 12 {
        'c'
    } else if d == 13 {
        'd'
    } else if d == 14 {
        'e'
    } else {
        'f'
    }
}

/// Appends `n` written in `base`.
pub fn push_in_base(s: &mut String, n: u128, base: u128)
    requires
        2 <= base <= 16,
    ensures
        final(s)@ == old(s)@ + in_base(n as nat, base as nat),
    decreases n,
{
    let ghost start = s@;
    if n >= base {
        proof {
            vstd::arithmetic::div_mod::lemma_div_decreases(n as int, base as int);
        }
        push_in_base(s, n / base, base);
    }
    s.push(digit_char(n % base));
    if n >= base {
        assert(in_base(n as nat, base as nat) == in_base((n / base) as nat, base as nat).push(
            digit((n % base) as int),
        ));
    } else {
        assert(n % base == n) by {
            vstd::arithmetic::div_mod::lemma_small_mod(n as nat, base as nat);
        }
        assert(in_base(n as nat, base as nat) == seq![digit(n as int)]);
    }
    assert(s@ =~= start + in_base(n as nat, base as nat));
}

/// Appends `n` in decimal.
pub fn push_decimal(s: &mut String, n: u128)
    ensures
        final(s)@ == old(s)@ + decimal(n as nat),
{
    push_in_base(s, n, 10);
}

/// Appends `n` in decimal, with a minus sign when negative.
pub fn push_signed(s: &mut String, n: i64)
    ensures
        final(s)@ == old(s)@ + signed_decimal(n as int),
{
    if n < 0 {
        let ghost start = s@;
        s.push('-');
        let m: i128 = 0 - (n as i128);
        push_decimal(s, m as u128);
        assert(s@ =~= start + signed_decimal(n as int));
    } else {
        push_decimal(s, n as u128);
    }
}

/// Appends `n` in base `base`, padded with zeros to `width` digits.
pub fn push_padded(s: &mut String, n: u128, base: u128, width: usize)
    requires
        2 <= base <= 16,
    ensures
        final(s)@ == old(s)@ + pad_left(in_base(n as nat, base as nat), width as nat, '0'),
{
    let mut digits = String::new();
    push_in_base(&mut digits, n, base);
    assert(digits@ =~= in_base(n as nat, base as nat));
    let len = digits.as_str().unicode_len();
    let ghost start = s@;
    if len < width {
        let mut k: usize = 0;
        while k < width - len
            invariant
                len < width,
                k <= width - len,
                s@ == start + Seq::new(k as nat, |_i: int| '0'),
            decreases width - len - k,
        {
            s.push('0');
            k = k + 1;
            assert(s@ =~= start + Seq::new(k as nat, |_i: int| '0'));
        }
    }
    push_str(s, digits.as_str());
    assert(s@ =~= start + pad_left(in_base(n as nat, base as nat), width as nat, '0'));
}

} // verus!

verus! {

// ---------------------------------------------------------------------------
// Ordering
// ---------------------------------------------------------------------------

/// `a` sorts strictly before `b`: lexicographic order by code point, which is
/// the byte order `str`'s `Ord` gives, since UTF-8 preserves code point order.
pub open spec fn lex_lt(a: Seq<char>, b: Seq<char>) -> bool
    decreases a.len(),
{
    if a.len() == 0 {
        b.len() > 0
    } else if b.len() == 0 {
        false
    } else if a[0] != b[0] {
        (a[0] as u32) < (b[0] as u32)
    } else {
        lex_lt(a.drop_first(), b.drop_first())
    }
}

/// `lex_lt` is the code-point order of whole strings: a string comes before
/// every longer string it starts, and before every string it first differs
/// from at a character with a smaller code point, wherever that character is.
pub proof fn lemma_lex_lt_is_code_point_order(a: Seq<char>, b: Seq<char>, k: int)
    ensures
        a.len() < b.len() && b.take(a.len() as int) == a ==> lex_lt(a, b),
        0 <= k < a.len() && k < b.len() && a.take(k) == b.take(k) && (a[k] as u32) < (b[k] as u32)
            ==> lex_lt(a, b),
    decreases a.len(),
{
    if a.len() > 0 && b.len() > 0 {
        if a[0] == b[0] {
            lemma_lex_lt_is_code_point_order(a.drop_first(), b.drop_first(), k - 1);
            if a.len() < b.len() && b.take(a.len() as int) == a {
                assert(b.drop_first().take(a.drop_first().len() as int) =~= a.drop_first()) by {
                    assert forall|i: int| 0 <= i < a.drop_first().len() implies #[trigger] b.drop_first().take(
                        a.drop_first().len() as int,
                    )[i] == a.drop_first()[i] by {
                        assert(b.take(a.len() as int)[i + 1] == a[i + 1]);
                    }
                }
            }
            if 0 < k < a.len() && k < b.len() && a.take(k) == b.take(k) {
                assert(a.drop_first().take(k - 1) =~= b.drop_first().take(k - 1)) by {
                    assert forall|i: int| 0 <= i < k - 1 implies #[trigger] a.drop_first().take(k - 1)[i]
                        == b.drop_first().take(k - 1)[i] by {
                        assert(a.take(k)[i + 1] == b.take(k)[i + 1]);
                    }
                }
            }
        } else {
            if a.len() < b.len() && b.take(a.len() as int) == a {
                assert(b.take(a.len() as int)[0] == a[0]);
            }
            if 0 < k < a.len() && k < b.len() && a.take(k) == b.take(k) {
                assert(a.take(k)[0] == b.take(k)[0]);
            }
        }
    }
}

/// No two strings each sort before the other.
pub proof fn lemma_lex_lt_asymmetric(a: Seq<char>, b: Seq<char>)
    ensures
        !(lex_lt(a, b) && lex_lt(b, a)),
    decreases a.len(),
{
    if a.len() > 0 && b.len() > 0 && a[0] == b[0] {
        lemma_lex_lt_asymmetric(a.drop_first(), b.drop_first());
    }
}

/// Sorting before is transitive.
pub proof fn lemma_lex_lt_transitive(a: Seq<char>, b: Seq<char>, c: Seq<char>)
    requires
        lex_lt(a, b),
        lex_lt(b, c),
    ensures
        lex_lt(a, c),
    decreases a.len(),
{
    if a.len() > 0 && a[0] == b[0] && b[0] == c[0] {
        lemma_lex_lt_transitive(a.drop_first(), b.drop_first(), c.drop_first());
    }
}

/// Whether `a` sorts strictly before `b`.
pub fn lex_less(a: &Vec<char>, b: &Vec<char>) -> (r: bool)
    ensures
        r == lex_lt(a@, b@),
{
    let mut i: usize = 0;
    assert(a@.skip(0) == a@ && b@.skip(0) == b@);
    while i < a.len() && i < b.len() && a[i] == b[i]
        invariant
            i <= a@.len(),
            i <= b@.len(),
            lex_lt(a@, b@) == lex_lt(a@.skip(i as int), b@.skip(i as int)),
        decreases a@.len() - i,
    {
        assert(a@.skip(i as int).drop_first() == a@.skip(i + 1));
        assert(b@.skip(i as int).drop_first() == b@.skip(i + 1));
        i = i + 1;
    }
    if i == a.len() {
        i < b.len()
    } else if i == b.len() {
        false
    } else {
        (a[i] as u32) < (b[i] as u32)
    }
}

} // verus!
