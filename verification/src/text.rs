//! Character-sequence primitives over `str` and `String`, stated on their `Seq<char>` views.
//!
//! Each operation has a spec function that says what it computes and an
//! executable function proved against it.
use vstd::prelude::*;

verus! {

/// `String::push` appends one character to the string.
pub assume_specification[ String::push ](string: &mut String, ch: char)
    ensures
        final(string)@ == old(string)@.push(ch),
;

// ----------------------------------------------------------------------------
// Specifications
// ----------------------------------------------------------------------------
/// The Unicode `White_Space` property, the notion of whitespace that `str::trim`
/// and `str::split_whitespace` use.
pub open spec fn is_white_space(c: char) -> bool {
    ||| ('\u{9}' <= c && c <= '\u{d}')
    ||| c == ' '
    ||| c == '\u{85}'
    ||| c == '\u{a0}'
    ||| c == '\u{1680}'
    ||| ('\u{2000}' <= c && c <= '\u{200a}')
    ||| c == '\u{2028}'
    ||| c == '\u{2029}'
    ||| c == '\u{202f}'
    ||| c == '\u{205f}'
    ||| c == '\u{3000}'
}

/// A set of characters that trimming removes.
#[derive(Clone, Copy, PartialEq, Eq, Structural)]
pub enum CharSet {
    /// Unicode whitespace.
    White,
    /// Exactly the given character.
    Is(char),
}

/// Membership in a `CharSet`.
pub open spec fn in_set(set: CharSet, c: char) -> bool {
    match set {
        CharSet::White => is_white_space(c),
        CharSet::Is(x) => c == x,
    }
}

/// `s` with every leading character in `set` removed.
pub open spec fn strip_leading(s: Seq<char>, set: CharSet) -> Seq<char>
    decreases s.len(),
{
    if s.len() > 0 && in_set(set, s[0]) {
        strip_leading(s.drop_first(), set)
    } else {
        s
    }
}

/// `s` with every trailing character in `set` removed.
pub open spec fn strip_trailing(s: Seq<char>, set: CharSet) -> Seq<char>
    decreases s.len(),
{
    if s.len() > 0 && in_set(set, s.last()) {
        strip_trailing(s.drop_last(), set)
    } else {
        s
    }
}

/// What `str::trim_matches` returns: both ends stripped of characters in `set`.
pub open spec fn strip_both(s: Seq<char>, set: CharSet) -> Seq<char> {
    strip_trailing(strip_leading(s, set), set)
}

/// What `str::trim` returns.
pub open spec fn trim(s: Seq<char>) -> Seq<char> {
    strip_both(s, CharSet::White)
}

/// What `str::trim_matches(c)` returns for a single character `c`.
pub open spec fn trim_char(s: Seq<char>, c: char) -> Seq<char> {
    strip_both(s, CharSet::Is(c))
}

/// `s` stripped of single quotes and then of double quotes at both ends, as
/// shell definitions are unquoted.
pub open spec fn unquote(s: Seq<char>) -> Seq<char> {
    trim_char(trim_char(s, '\''), '"')
}

/// `p` occurs in `s` as a contiguous run.
pub open spec fn contains_seq(s: Seq<char>, p: Seq<char>) -> bool {
    exists|i: int| 0 <= i && i + p.len() <= s.len() && #[trigger] s.subrange(i, i + p.len()) == p
}

/// What `str::split(sep)` yields for a single character `sep`: the pieces between
/// separators, in order, empty pieces included (there is always at least one).
pub open spec fn split_spec(s: Seq<char>, sep: char) -> Seq<Seq<char>>
    decreases s.len(),
{
    if s.len() == 0 {
        seq![Seq::empty()]
    } else {
        let prev = split_spec(s.drop_last(), sep);
        if s.last() == sep {
            prev.push(Seq::empty())
        } else {
            prev.update(prev.len() - 1, prev.last().push(s.last()))
        }
    }
}

/// A line as `str::lines` gives it: a trailing `'\r'` is removed only where
/// the line was ended by `'\n'`.
pub open spec fn line_body(piece: Seq<char>, ended: bool) -> Seq<char> {
    if ended && piece.len() > 0 && piece.last() == '\r' {
        piece.drop_last()
    } else {
        piece
    }
}

/// What `str::lines` yields: the `'\n'`-separated pieces, each ended piece
/// without a trailing `'\r'`, and no empty piece after a final `'\n'`.
pub open spec fn lines_spec(s: Seq<char>) -> Seq<Seq<char>> {
    let parts = split_spec(s, '\n');
    let n = if parts.last().len() == 0 { parts.len() - 1 } else { parts.len() as int };
    Seq::new(n as nat, |i: int| line_body(parts[i], i < parts.len() - 1))
}

/// What `str::split_whitespace` yields: the maximal runs of non-whitespace characters.
pub open spec fn words_spec(s: Seq<char>) -> Seq<Seq<char>>
    decreases s.len(),
{
    if s.len() == 0 {
        Seq::empty()
    } else {
        let prev = words_spec(s.drop_last());
        let c = s.last();
        if is_white_space(c) {
            prev
        } else if s.len() >= 2 && !is_white_space(s[s.len() - 2]) {
            prev.update(prev.len() - 1, prev.last().push(c))
        } else {
            prev.push(seq![c])
        }
    }
}

/// What `str::replace("\\n", "\n")` returns: each two-character escape
/// `\` `n`, scanned left to right, becomes a newline.
pub open spec fn unescape_newlines(s: Seq<char>) -> Seq<char>
    decreases s.len(),
{
    if s.len() == 0 {
        s
    } else if s.len() >= 2 && s[0] == '\\' && s[1] == 'n' {
        seq!['\n'] + unescape_newlines(s.skip(2))
    } else {
        seq![s[0]] + unescape_newlines(s.skip(1))
    }
}

/// What `[..].join(sep)` returns.
pub open spec fn join_spec(parts: Seq<Seq<char>>, sep: Seq<char>) -> Seq<char>
    decreases parts.len(),
{
    if parts.len() == 0 {
        Seq::empty()
    } else if parts.len() == 1 {
        parts[0]
    } else {
        join_spec(parts.drop_last(), sep) + sep + parts.last()
    }
}

// ----------------------------------------------------------------------------
// Conversions
// ----------------------------------------------------------------------------
/// For a vector of characters the deep view is the view.
pub proof fn lemma_chars_deep_view(v: Vec<char>)
    ensures
        v.deep_view() == v@,
{
    assert(v.deep_view() =~= v@);
}

/// Copies the characters of `s` into a vector.
pub fn chars_of(s: &str) -> (v: Vec<char>)
    ensures
        v@ == s@,
{
    let mut v: Vec<char> = Vec::new();
    for c in it: s.chars()
        invariant
            v@ == it.seq().take(it.index() as int),
            it.seq() == s@,
    {
        v.push(c);
    }
    v
}

/// Builds a `String` from the characters of `v`.
pub fn string_of(v: &Vec<char>) -> (s: String)
    ensures
        s@ == v@,
{
    let mut s = String::new();
    for i in 0..v.len()
        invariant
            s@ == v@.take(i as int),
    {
        s.push(v[i]);
        assert(v@.take(i as int).push(v@[i as int]) == v@.take(i + 1));
    }
    assert(v@.take(v.len() as int) == v@);
    s
}

/// A `String` equal to `s`.
pub fn owned(s: &str) -> (r: String)
    ensures
        r@ == s@,
{
    s.to_owned()
}

/// Builds the `String`s of a list of character vectors.
pub fn strings_of(v: &Vec<Vec<char>>) -> (r: Vec<String>)
    ensures
        r.deep_view() == v.deep_view(),
{
    let mut r: Vec<String> = Vec::new();
    for i in 0..v.len()
        invariant
            r.len() == i,
            forall|k: int| 0 <= k < i ==> #[trigger] r@[k]@ == v@[k]@,
    {
        r.push(string_of(&v[i]));
    }
    assert forall|k: int| 0 <= k < r.len() implies #[trigger] r.deep_view()[k] == v.deep_view()[k] by {
        assert(r.deep_view()[k] == r@[k].deep_view());
        assert(v.deep_view()[k] == v@[k].deep_view());
        assert(v@[k].deep_view() =~= v@[k]@);
    }
    assert(r.deep_view() =~= v.deep_view());
    r
}

/// Appends the characters of `tail` to `v`.
pub fn append_chars(v: &mut Vec<char>, tail: &Vec<char>)
    ensures
        final(v)@ == old(v)@ + tail@,
{
    let ghost start = v@;
    for i in 0..tail.len()
        invariant
            v@ == start + tail@.take(i as int),
    {
        v.push(tail[i]);
        assert(start + tail@.take(i + 1) == start + tail@.take(i as int) + seq![tail@[i as int]]);
    }
    assert(tail@.take(tail.len() as int) == tail@);
}

/// The characters of `a` followed by those of `b`.
pub fn concat(a: &Vec<char>, b: &Vec<char>) -> (r: Vec<char>)
    ensures
        r@ == a@ + b@,
{
    let mut r = a.clone();
    append_chars(&mut r, b);
    r
}

// ----------------------------------------------------------------------------
// Predicates
// ----------------------------------------------------------------------------
/// Whether `c` is whitespace in the sense of Unicode `White_Space`.
pub fn is_white_space_exec(c: char) -> (r: bool)
    ensures
        r == is_white_space(c),
{
    ('\u{9}' <= c && c <= '\u{d}') || c == ' ' || c == '\u{85}' || c == '\u{a0}' || c
        == '\u{1680}' || ('\u{2000}' <= c && c <= '\u{200a}') || c == '\u{2028}' || c
        == '\u{2029}' || c == '\u{202f}' || c == '\u{205f}' || c == '\u{3000}'
}

/// Whether the two character sequences are equal.
pub fn chars_eq(a: &Vec<char>, b: &Vec<char>) -> (r: bool)
    ensures
        r == (a@ == b@),
{
    if a.len() != b.len() {
        return false;
    }
    for i in 0..a.len()
        invariant
            a.len() == b.len(),
            forall|k: int| 0 <= k < i ==> a@[k] == b@[k],
    {
        if a[i] != b[i] {
            return false;
        }
    }
    assert(a@ =~= b@);
    true
}

/// Whether `p` occurs in `s` starting at index `at`.
pub fn occurs_at(s: &Vec<char>, p: &Vec<char>, at: usize) -> (r: bool)
    requires
        at <= s.len(),
    ensures
        r == (at + p.len() <= s.len() && s@.subrange(at as int, at + p.len()) == p@),
{
    if p.len() > s.len() - at {
        return false;
    }
    for i in 0..p.len()
        invariant
            at + p.len() <= s.len(),
            forall|k: int| 0 <= k < i ==> s@[at + k] == p@[k],
    {
        if s[at + i] != p[i] {
            assert(s@.subrange(at as int, at + p.len())[i as int] != p@[i as int]);
            return false;
        }
    }
    assert(s@.subrange(at as int, at + p.len()) =~= p@);
    true
}

/// Whether `s` begins with `p`.
pub fn starts_with(s: &Vec<char>, p: &Vec<char>) -> (r: bool)
    ensures
        r == p@.is_prefix_of(s@),
{
    let r = occurs_at(s, p, 0);
    assert(r ==> s@.subrange(0, p@.len() as int) == s@.take(p@.len() as int));
    assert(p@.len() <= s@.len() ==> s@.subrange(0, p@.len() as int) == s@.take(
        p@.len() as int,
    ));
    r
}

/// `s` without its prefix `p`, where `s` begins with `p`.
pub fn strip_prefix(s: &Vec<char>, p: &Vec<char>) -> (r: Option<Vec<char>>)
    ensures
        r matches Some(rest) ==> p@.is_prefix_of(s@) && rest@ == s@.skip(p@.len() as int),
        r is None ==> !p@.is_prefix_of(s@),
{
    if starts_with(s, p) {
        Some(slice_chars(s, p.len(), s.len()))
    } else {
        None
    }
}

/// Whether `p` occurs anywhere in `s`.
pub fn contains(s: &Vec<char>, p: &Vec<char>) -> (r: bool)
    ensures
        r == contains_seq(s@, p@),
{
    let mut i: usize = 0;
    while i <= s.len()
        invariant_except_break
            i <= s.len(),
            forall|k: int|
                0 <= k < i && k + p@.len() <= s@.len() ==> #[trigger] s@.subrange(
                    k,
                    k + p@.len(),
                ) != p@,
        ensures
            forall|k: int|
                0 <= k && k + p@.len() <= s@.len() ==> #[trigger] s@.subrange(
                    k,
                    k + p@.len(),
                ) != p@,
        decreases s.len() + 1 - i,
    {
        if occurs_at(s, p, i) {
            return true;
        }
        if i == s.len() {
            break;
        }
        i = i + 1;
    }
    false
}

/// The characters of `s` from index `lo` up to (not including) `hi`.
pub fn slice_chars(s: &Vec<char>, lo: usize, hi: usize) -> (r: Vec<char>)
    requires
        lo <= hi <= s.len(),
    ensures
        r@ == s@.subrange(lo as int, hi as int),
{
    let mut r: Vec<char> = Vec::new();
    for i in lo..hi
        invariant
            lo <= i <= hi <= s.len(),
            r@ == s@.subrange(lo as int, i as int),
    {
        r.push(s[i]);
        assert(s@.subrange(lo as int, i + 1) == s@.subrange(lo as int, i as int).push(
            s@[i as int],
        ));
    }
    r
}

// ----------------------------------------------------------------------------
// Splitting and trimming
// ----------------------------------------------------------------------------
/// `split_spec` always yields at least one piece.
pub proof fn lemma_split_nonempty(s: Seq<char>, sep: char)
    ensures
        split_spec(s, sep).len() >= 1,
    decreases s.len(),
{
    if s.len() > 0 {
        lemma_split_nonempty(s.drop_last(), sep);
    }
}

/// The pieces of `s` between occurrences of `sep`, as `str::split(sep)` gives them.
pub fn split_chars(s: &Vec<char>, sep: char) -> (r: Vec<Vec<char>>)
    ensures
        r.deep_view() == split_spec(s@, sep),
{
    let mut parts: Vec<Vec<char>> = Vec::new();
    let mut cur: Vec<char> = Vec::new();
    for i in 0..s.len()
        invariant
            parts.deep_view().push(cur@) == split_spec(s@.take(i as int), sep),
    {
        let ghost before = parts.deep_view();
        proof {
            lemma_split_nonempty(s@.take(i as int), sep);
        }
        assert(s@.take(i + 1).drop_last() == s@.take(i as int));
        if s[i] == sep {
            parts.push(cur);
            cur = Vec::new();
            proof { lemma_chars_deep_view(parts@[parts.len() - 1]); }
            assert(parts.deep_view() =~= before.push(parts@[parts.len() - 1]@));
            assert(parts.deep_view().push(cur@) =~= split_spec(s@.take(i + 1), sep));
        } else {
            cur.push(s[i]);
            assert(parts.deep_view().push(cur@) =~= split_spec(s@.take(i + 1), sep));
        }
    }
    let ghost before = parts.deep_view();
    parts.push(cur);
    proof { lemma_chars_deep_view(parts@[parts.len() - 1]); }
            assert(parts.deep_view() =~= before.push(parts@[parts.len() - 1]@));
    assert(s@.take(s.len() as int) == s@);
    parts
}

/// The lines of `s`, as `str::lines` gives them.
pub fn lines_of(s: &Vec<char>) -> (r: Vec<Vec<char>>)
    ensures
        r.deep_view() == lines_spec(s@),
{
    let parts = split_chars(s, '\n');
    proof {
        lemma_split_nonempty(s@, '\n');
    }
    proof {
        lemma_chars_deep_view(parts@[parts.len() - 1]);
    }
    assert(parts@[parts.len() - 1]@ == parts.deep_view().last());
    let n = if parts[parts.len() - 1].len() == 0 {
        parts.len() - 1
    } else {
        parts.len()
    };
    let mut r: Vec<Vec<char>> = Vec::new();
    for i in 0..n
        invariant
            n <= parts.len(),
            parts.deep_view() == split_spec(s@, '\n'),
            r.len() == i,
            forall|k: int|
                0 <= k < i ==> #[trigger] r@[k]@ == line_body(
                    parts.deep_view()[k],
                    k < parts.len() - 1,
                ),
    {
        let piece = &parts[i];
        let ended = i + 1 < parts.len();
        proof {
            lemma_chars_deep_view(parts@[i as int]);
        }
        assert(piece@ == parts.deep_view()[i as int]);
        if ended && piece.len() > 0 && piece[piece.len() - 1] == '\r' {
            r.push(slice_chars(piece, 0, piece.len() - 1));
            assert(r@[i as int]@ =~= piece@.drop_last());
        } else {
            r.push(piece.clone());
        }
    }
    assert forall|k: int| 0 <= k < r.len() implies #[trigger] r.deep_view()[k] == lines_spec(
        s@,
    )[k] by {
        lemma_chars_deep_view(r@[k]);
    }
    assert(r.deep_view() =~= lines_spec(s@));
    r
}

/// Whether `c` is in `set`.
pub fn in_set_exec(set: CharSet, c: char) -> (r: bool)
    ensures
        r == in_set(set, c),
{
    match set {
        CharSet::White => is_white_space_exec(c),
        CharSet::Is(x) => c == x,
    }
}

/// `s` with leading and trailing characters in `set` removed.
pub fn strip_both_chars(s: &Vec<char>, set: CharSet) -> (r: Vec<char>)
    ensures
        r@ == strip_both(s@, set),
{
    let mut lo: usize = 0;
    assert(s@.skip(0) == s@);
    while lo < s.len()
        invariant
            lo <= s.len(),
            strip_leading(s@.skip(lo as int), set) == strip_leading(s@, set),
        ensures
            lo <= s.len(),
            strip_leading(s@.skip(lo as int), set) == strip_leading(s@, set),
            lo < s.len() ==> !in_set(set, s@[lo as int]),
        decreases s.len() - lo,
    {
        if !in_set_exec(set, s[lo]) {
            break;
        }
        assert(s@.skip(lo as int).drop_first() == s@.skip(lo + 1));
        lo = lo + 1;
    }
    let ghost left = s@.skip(lo as int);
    assert(strip_leading(left, set) == left) by {
        if left.len() > 0 {
            assert(left[0] == s@[lo as int]);
        }
    }
    let mut hi: usize = s.len();
    assert(s@.subrange(lo as int, s.len() as int) == left);
    while hi > lo
        invariant
            lo <= hi <= s.len(),
            strip_trailing(s@.subrange(lo as int, hi as int), set) == strip_trailing(left, set),
        ensures
            lo <= hi <= s.len(),
            strip_trailing(s@.subrange(lo as int, hi as int), set) == strip_trailing(left, set),
            hi > lo ==> !in_set(set, s@[hi - 1]),
        decreases hi - lo,
    {
        if !in_set_exec(set, s[hi - 1]) {
            break;
        }
        assert(s@.subrange(lo as int, hi as int).drop_last() == s@.subrange(
            lo as int,
            hi - 1,
        ));
        hi = hi - 1;
    }
    let r = slice_chars(s, lo, hi);
    assert(strip_trailing(r@, set) == r@) by {
        if r@.len() > 0 {
            assert(r@.last() == s@[hi - 1]);
        }
    }
    r
}

/// `s` without leading and trailing whitespace, as `str::trim` gives it.
pub fn trim_chars(s: &Vec<char>) -> (r: Vec<char>)
    ensures
        r@ == trim(s@),
{
    strip_both_chars(s, CharSet::White)
}

/// `s` without leading and trailing occurrences of `c`, as `str::trim_matches(c)` gives it.
pub fn trim_char_chars(s: &Vec<char>, c: char) -> (r: Vec<char>)
    ensures
        r@ == trim_char(s@, c),
{
    strip_both_chars(s, CharSet::Is(c))
}

/// `s` unquoted: single quotes, then double quotes, stripped from both ends.
pub fn unquote_chars(s: &Vec<char>) -> (r: Vec<char>)
    ensures
        r@ == unquote(s@),
{
    let t = trim_char_chars(s, '\'');
    trim_char_chars(&t, '"')
}

/// The whitespace-separated words of `s`, as `str::split_whitespace` gives them.
pub fn words_of(s: &Vec<char>) -> (r: Vec<Vec<char>>)
    ensures
        r.deep_view() == words_spec(s@),
{
    let mut words: Vec<Vec<char>> = Vec::new();
    let mut cur: Vec<char> = Vec::new();
    let mut in_word = false;
    for i in 0..s.len()
        invariant
            in_word <==> (i > 0 && !is_white_space(s@[i - 1])),
            in_word ==> words.deep_view().push(cur@) == words_spec(s@.take(i as int)),
            !in_word ==> words.deep_view() == words_spec(s@.take(i as int)),
    {
        let c = s[i];
        assert(s@.take(i + 1).drop_last() == s@.take(i as int));
        assert(s@.take(i + 1).last() == c);
        if is_white_space_exec(c) {
            if in_word {
                let ghost before = words.deep_view();
                words.push(cur);
                proof { lemma_chars_deep_view(words@[words.len() - 1]); }
                assert(words.deep_view() =~= before.push(words@[words.len() - 1]@));
                cur = Vec::new();
            }
            in_word = false;
        } else {
            if in_word {
                assert(s@.take(i + 1)[i - 1] == s@[i - 1]);
                cur.push(c);
                assert(words.deep_view().push(cur@) =~= words_spec(s@.take(i + 1)));
            } else {
                cur = Vec::new();
                cur.push(c);
                assert(i >= 1 ==> s@.take(i + 1)[i - 1] == s@[i - 1]);
                assert(words.deep_view().push(cur@) =~= words_spec(s@.take(i + 1)));
            }
            in_word = true;
        }
    }
    if in_word {
        let ghost before = words.deep_view();
        words.push(cur);
        proof { lemma_chars_deep_view(words@[words.len() - 1]); }
                assert(words.deep_view() =~= before.push(words@[words.len() - 1]@));
    }
    assert(s@.take(s.len() as int) == s@);
    words
}

/// `s` with each escape `\n` turned into a newline, as `str::replace("\\n", "\n")` gives it.
pub fn unescape_newlines_chars(s: &Vec<char>) -> (r: Vec<char>)
    ensures
        r@ == unescape_newlines(s@),
{
    let mut r: Vec<char> = Vec::new();
    let mut i: usize = 0;
    assert(s@.skip(0) == s@);
    assert(r@ + unescape_newlines(s@) == unescape_newlines(s@));
    while i < s.len()
        invariant
            i <= s.len(),
            r@ + unescape_newlines(s@.skip(i as int)) == unescape_newlines(s@),
        decreases s.len() - i,
    {
        let ghost rest = s@.skip(i as int);
        if i + 1 < s.len() && s[i] == '\\' && s[i + 1] == 'n' {
            assert(rest.skip(2) == s@.skip(i + 2));
            r.push('\n');
            assert(r@ + unescape_newlines(s@.skip(i + 2)) == r@.drop_last() + unescape_newlines(
                rest,
            ));
            i = i + 2;
        } else {
            assert(rest.skip(1) == s@.skip(i + 1));
            assert(rest[0] == s@[i as int]);
            r.push(s[i]);
            assert(r@ + unescape_newlines(s@.skip(i + 1)) == r@.drop_last() + unescape_newlines(
                rest,
            ));
            i = i + 1;
        }
    }
    assert(s@.skip(i as int) =~= Seq::<char>::empty());
    assert(r@ + Seq::<char>::empty() == r@);
    r
}

/// The parts of `parts[from..]` joined with `sep` in between.
pub fn join_from(parts: &Vec<Vec<char>>, from: usize, sep: &Vec<char>) -> (r: Vec<char>)
    requires
        from <= parts.len(),
    ensures
        r@ == join_spec(parts.deep_view().skip(from as int), sep@),
{
    let mut r: Vec<char> = Vec::new();
    for i in from..parts.len()
        invariant
            from <= i <= parts.len(),
            r@ == join_spec(parts.deep_view().subrange(from as int, i as int), sep@),
    {
        let ghost done = parts.deep_view().subrange(from as int, i as int);
        let ghost next = parts.deep_view().subrange(from as int, i + 1);
        assert(next.drop_last() == done);
        assert(next.last() == parts@[i as int]@);
        if i > from {
            append_chars(&mut r, sep);
        }
        append_chars(&mut r, &parts[i]);
        assert(i == from ==> r@ == next[0]);
    }
    assert(parts.deep_view().subrange(from as int, parts.len() as int) == parts.deep_view().skip(
        from as int,
    ));
    r
}

} // verus!
