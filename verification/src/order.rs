//! The order of strings and sorting without repeats.
//!
//! Rust orders `str` by its UTF-8 bytes; UTF-8 preserves the order of code
//! points, so that order is the lexicographic order on characters taken as
//! numbers, which is what this module states.
use vstd::prelude::*;

verus! {

/// `a` comes before `b` in lexicographic order.
pub open spec fn lex_lt(a: Seq<char>, b: Seq<char>) -> bool
    decreases a.len(),
{
    if a.len() == 0 {
        b.len() > 0
    } else if b.len() == 0 {
        false
    } else if a[0] != b[0] {
        (a[0] as int) < (b[0] as int)
    } else {
        lex_lt(a.drop_first(), b.drop_first())
    }
}

/// Every element comes before the next: sorted, with no element twice.
pub open spec fn strictly_sorted(s: Seq<Seq<char>>) -> bool {
    forall|i: int, j: int| 0 <= i < j < s.len() ==> lex_lt(#[trigger] s[i], #[trigger] s[j])
}

/// `x` placed into the sorted `r` at its place, unless it is there already.
pub open spec fn insert_sorted(r: Seq<Seq<char>>, x: Seq<char>) -> Seq<Seq<char>>
    decreases r.len(),
{
    if r.len() == 0 {
        seq![x]
    } else if r[0] == x {
        r
    } else if lex_lt(x, r[0]) {
        seq![x] + r
    } else {
        seq![r[0]] + insert_sorted(r.drop_first(), x)
    }
}

/// The elements of `items` in sorted order without repeats, as sorting and then
/// removing consecutive duplicates gives them.
pub open spec fn sorted_unique(items: Seq<Seq<char>>) -> Seq<Seq<char>>
    decreases items.len(),
{
    if items.len() == 0 {
        Seq::empty()
    } else {
        insert_sorted(sorted_unique(items.drop_last()), items.last())
    }
}

/// The order is irreflexive and no two strings precede each other.
pub proof fn lemma_lex_asym(a: Seq<char>, b: Seq<char>)
    ensures
        !(lex_lt(a, b) && lex_lt(b, a)),
        !lex_lt(a, a),
    decreases a.len(),
{
    if a.len() > 0 && b.len() > 0 && a[0] == b[0] {
        lemma_lex_asym(a.drop_first(), b.drop_first());
    }
    if a.len() > 0 {
        lemma_lex_asym(a.drop_first(), a.drop_first());
    }
}

/// Of two different strings, one precedes the other.
pub proof fn lemma_lex_total(a: Seq<char>, b: Seq<char>)
    ensures
        a == b || lex_lt(a, b) || lex_lt(b, a),
    decreases a.len(),
{
    if a.len() > 0 && b.len() > 0 {
        if a[0] == b[0] {
            lemma_lex_total(a.drop_first(), b.drop_first());
            if a.drop_first() == b.drop_first() {
                assert(a =~= seq![a[0]] + a.drop_first());
                assert(b =~= seq![b[0]] + b.drop_first());
            }
        } else {
            assert((a[0] as int) != (b[0] as int));
        }
    } else if a.len() == 0 && b.len() == 0 {
        assert(a =~= b);
    }
}

/// The order is transitive.
pub proof fn lemma_lex_trans(a: Seq<char>, b: Seq<char>, c: Seq<char>)
    requires
        lex_lt(a, b),
        lex_lt(b, c),
    ensures
        lex_lt(a, c),
    decreases a.len(),
{
    if a.len() > 0 && b.len() > 0 && c.len() > 0 && a[0] == b[0] && b[0] == c[0] {
        lemma_lex_trans(a.drop_first(), b.drop_first(), c.drop_first());
    }
}

/// Inserting into a strictly sorted sequence keeps it strictly sorted and adds
/// exactly the new element.
pub proof fn lemma_insert_sorted(r: Seq<Seq<char>>, x: Seq<char>)
    requires
        strictly_sorted(r),
    ensures
        strictly_sorted(insert_sorted(r, x)),
        forall|y: Seq<char>| #[trigger] insert_sorted(r, x).contains(y) <==> (r.contains(y) || y == x),
    decreases r.len(),
{
    let s = insert_sorted(r, x);
    if r.len() == 0 {
        assert forall|y: Seq<char>| s.contains(y) <==> (r.contains(y) || y == x) by {
            if s.contains(y) {
                assert(s[0] == y);
            }
            if y == x {
                assert(s[0] == x);
            }
        }
    } else if r[0] == x {
        assert forall|y: Seq<char>| s.contains(y) <==> (r.contains(y) || y == x) by {
            if y == x {
                assert(r[0] == y);
            }
        }
    } else if lex_lt(x, r[0]) {
        assert forall|i: int, j: int| 0 <= i < j < s.len() implies lex_lt(
            #[trigger] s[i],
            #[trigger] s[j],
        ) by {
            if i == 0 {
                if j > 1 {
                    assert(lex_lt(r[0], r[j - 1]));
                    lemma_lex_trans(x, r[0], r[j - 1]);
                }
            } else {
                assert(s[i] == r[i - 1] && s[j] == r[j - 1]);
            }
        }
        assert forall|y: Seq<char>| s.contains(y) <==> (r.contains(y) || y == x) by {
            if s.contains(y) {
                let k = choose|k: int| 0 <= k < s.len() && s[k] == y;
                if k > 0 {
                    assert(r[k - 1] == y);
                }
            }
            if r.contains(y) {
                let k = choose|k: int| 0 <= k < r.len() && r[k] == y;
                assert(s[k + 1] == y);
            }
            if y == x {
                assert(s[0] == y);
            }
        }
    } else {
        let rest = r.drop_first();
        assert forall|i: int, j: int| 0 <= i < j < rest.len() implies lex_lt(
            #[trigger] rest[i],
            #[trigger] rest[j],
        ) by {
            assert(rest[i] == r[i + 1] && rest[j] == r[j + 1]);
        }
        lemma_insert_sorted(rest, x);
        let t = insert_sorted(rest, x);
        lemma_lex_total(x, r[0]);
        assert(lex_lt(r[0], x));
        assert forall|i: int, j: int| 0 <= i < j < s.len() implies lex_lt(
            #[trigger] s[i],
            #[trigger] s[j],
        ) by {
            if i == 0 {
                assert(s[j] == t[j - 1]);
                assert(t.contains(t[j - 1]));
                if t[j - 1] != x {
                    assert(rest.contains(t[j - 1]));
                    let k = choose|k: int| 0 <= k < rest.len() && rest[k] == t[j - 1];
                    assert(r[k + 1] == t[j - 1]);
                    assert(lex_lt(r[0], r[k + 1]));
                }
            } else {
                assert(s[i] == t[i - 1] && s[j] == t[j - 1]);
            }
        }
        assert forall|y: Seq<char>| s.contains(y) <==> (r.contains(y) || y == x) by {
            if s.contains(y) {
                let k = choose|k: int| 0 <= k < s.len() && s[k] == y;
                if k > 0 {
                    assert(t[k - 1] == y);
                    assert(t.contains(y));
                    if rest.contains(y) {
                        let m = choose|m: int| 0 <= m < rest.len() && rest[m] == y;
                        assert(r[m + 1] == y);
                    }
                } else {
                    assert(r[0] == y);
                }
            }
            if r.contains(y) {
                let k = choose|k: int| 0 <= k < r.len() && r[k] == y;
                if k == 0 {
                    assert(s[0] == y);
                } else {
                    assert(rest[k - 1] == y);
                    assert(t.contains(y));
                    let m = choose|m: int| 0 <= m < t.len() && t[m] == y;
                    assert(s[m + 1] == y);
                }
            }
            if y == x {
                assert(t.contains(y));
                let m = choose|m: int| 0 <= m < t.len() && t[m] == y;
                assert(s[m + 1] == y);
            }
        }
    }
}

/// Sorting without repeats yields a strictly sorted sequence that holds
/// exactly the elements of the input.
pub proof fn lemma_sorted_unique(items: Seq<Seq<char>>)
    ensures
        strictly_sorted(sorted_unique(items)),
        forall|y: Seq<char>| #[trigger] sorted_unique(items).contains(y) <==> items.contains(y),
    decreases items.len(),
{
    if items.len() > 0 {
        let prev = items.drop_last();
        lemma_sorted_unique(prev);
        lemma_insert_sorted(sorted_unique(prev), items.last());
        assert forall|y: Seq<char>| #[trigger] sorted_unique(items).contains(y) <==> items.contains(
            y,
        ) by {
            if prev.contains(y) {
                let k = choose|k: int| 0 <= k < prev.len() && prev[k] == y;
                assert(items[k] == y);
            }
            if items.contains(y) {
                let k = choose|k: int| 0 <= k < items.len() && items[k] == y;
                if k < items.len() - 1 {
                    assert(prev[k] == y);
                }
            }
        }
    }
}

/// Whether `a` comes before `b`.
pub fn lex_less(a: &Vec<char>, b: &Vec<char>) -> (r: bool)
    ensures
        r == lex_lt(a@, b@),
{
    let mut i: usize = 0;
    assert(a@.skip(0) == a@ && b@.skip(0) == b@);
    while i < a.len() && i < b.len()
        invariant
            i <= a.len(),
            i <= b.len(),
            lex_lt(a@.skip(i as int), b@.skip(i as int)) == lex_lt(a@, b@),
        decreases a.len() - i,
    {
        assert(a@.skip(i as int)[0] == a@[i as int]);
        assert(b@.skip(i as int)[0] == b@[i as int]);
        if a[i] != b[i] {
            return a[i] < b[i];
        }
        assert(a@.skip(i as int).drop_first() == a@.skip(i + 1));
        assert(b@.skip(i as int).drop_first() == b@.skip(i + 1));
        i = i + 1;
    }
    i == a.len() && i < b.len()
}

/// Places `x` into the strictly sorted `r` at its place, unless it is there already.
fn insert_sorted_exec(r: &mut Vec<Vec<char>>, x: Vec<char>)
    requires
        strictly_sorted(old(r).deep_view()),
    ensures
        final(r).deep_view() == insert_sorted(old(r).deep_view(), x@),
{
    let ghost start = r.deep_view();
    let mut p: usize = 0;
    assert(start.skip(0) == start);
    assert(start.take(0) + insert_sorted(start, x@) == insert_sorted(start, x@));
    while p < r.len()
        invariant
            p <= r.len(),
            r.deep_view() == start,
            strictly_sorted(start),
            insert_sorted(start, x@) == start.take(p as int) + insert_sorted(
                start.skip(p as int),
                x@,
            ),
        ensures
            p <= r.len(),
            insert_sorted(start, x@) == start.take(p as int) + insert_sorted(
                start.skip(p as int),
                x@,
            ),
            p < r.len() ==> !lex_lt(start[p as int], x@),
        decreases r.len() - p,
    {
        proof {
            crate::text::lemma_chars_deep_view(r@[p as int]);
        }
        if !lex_less(&r[p], &x) {
            break;
        }
        let ghost rest = start.skip(p as int);
        assert(rest[0] == start[p as int]);
        proof {
            lemma_lex_asym(x@, rest[0]);
        }
        assert(rest.drop_first() == start.skip(p + 1));
        assert(start.take(p + 1) == start.take(p as int) + seq![rest[0]]);
        p = p + 1;
    }
    let ghost rest = start.skip(p as int);
    if p < r.len() {
        proof {
            crate::text::lemma_chars_deep_view(r@[p as int]);
        }
        if crate::text::chars_eq(&r[p], &x) {
            assert(start.take(p as int) + rest == start);
            return ;
        }
        proof {
            lemma_lex_total(x@, rest[0]);
        }
        r.insert(p, x);
    } else {
        r.push(x);
    }
    proof {
        crate::text::lemma_chars_deep_view(r@[p as int]);
    }
    assert(r.deep_view() =~= start.take(p as int) + insert_sorted(rest, x@));
}

/// The elements of `items` in sorted order without repeats, as `sort` and
/// then `dedup` leave them.
pub fn sort_unique(items: &Vec<Vec<char>>) -> (r: Vec<Vec<char>>)
    ensures
        r.deep_view() == sorted_unique(items.deep_view()),
        strictly_sorted(r.deep_view()),
        forall|y: Seq<char>| #[trigger] r.deep_view().contains(y) <==> items.deep_view().contains(y),
{
    let ghost iv = items.deep_view();
    let mut r: Vec<Vec<char>> = Vec::new();
    for i in 0..items.len()
        invariant
            iv == items.deep_view(),
            r.deep_view() == sorted_unique(iv.take(i as int)),
    {
        proof {
            lemma_sorted_unique(iv.take(i as int));
            crate::text::lemma_chars_deep_view(items@[i as int]);
        }
        assert(iv.take(i + 1).drop_last() == iv.take(i as int));
        assert(iv.take(i + 1).last() == items@[i as int]@);
        insert_sorted_exec(&mut r, items[i].clone());
    }
    assert(iv.take(items.len() as int) == iv);
    proof {
        lemma_sorted_unique(iv);
    }
    r
}

} // verus!
