//! The ordering of strings (`str`'s `Ord`), sorting, joining and the search
//! for repeated strings.
use vstd::prelude::*;
use vstd::relations::*;

use crate::text::chars_of;

verus! {

/// `a` comes strictly before `b` in the lexicographic order of characters,
/// the order of `str` and `String`.
pub open spec fn lex_lt(a: Seq<char>, b: Seq<char>) -> bool
    decreases a.len(),
{
    if a.len() == 0 {
        b.len() > 0
    } else if b.len() == 0 {
        false
    } else if a[0] != b[0] {
        (a[0] as int) < (b[0] as int)
    } else {
        lex_lt(a.drop_first(), b.drop_first())
    }
}

/// `a` comes before or equals `b`.
pub open spec fn lex_le(a: Seq<char>, b: Seq<char>) -> bool {
    !lex_lt(b, a)
}

/// The order `lex_le` as a relation.
pub open spec fn lex_le_rel() -> spec_fn(Seq<char>, Seq<char>) -> bool {
    |a: Seq<char>, b: Seq<char>| lex_le(a, b)
}

/// The characters of each string.
pub open spec fn views(v: Seq<String>) -> Seq<Seq<char>> {
    v.map_values(|s: String| s@)
}

/// No string comes strictly before itself.
pub proof fn lemma_lex_irreflexive(a: Seq<char>)
    ensures
        !lex_lt(a, a),
    decreases a.len(),
{
    if a.len() > 0 {
        lemma_lex_irreflexive(a.drop_first());
    }
}

/// Of two different strings, one comes strictly before the other.
pub proof fn lemma_lex_total(a: Seq<char>, b: Seq<char>)
    ensures
        a == b || lex_lt(a, b) || lex_lt(b, a),
    decreases a.len(),
{
    if a.len() > 0 && b.len() > 0 && a[0] == b[0] {
        lemma_lex_total(a.drop_first(), b.drop_first());
        if a.drop_first() == b.drop_first() {
            assert(a =~= seq![a[0]] + a.drop_first());
            assert(b =~= seq![b[0]] + b.drop_first());
        }
    } else if a.len() == 0 && b.len() == 0 {
        assert(a =~= b);
    }
}

/// No two strings each come strictly before the other.
pub proof fn lemma_lex_asymmetric(a: Seq<char>, b: Seq<char>)
    ensures
        !(lex_lt(a, b) && lex_lt(b, a)),
    decreases a.len(),
{
    if a.len() > 0 && b.len() > 0 && a[0] == b[0] {
        lemma_lex_asymmetric(a.drop_first(), b.drop_first());
    }
}

/// Coming strictly before is transitive.
pub proof fn lemma_lex_transitive(a: Seq<char>, b: Seq<char>, c: Seq<char>)
    requires
        lex_lt(a, b),
        lex_lt(b, c),
    ensures
        lex_lt(a, c),
    decreases a.len(),
{
    if a.len() > 0 && b.len() > 0 && c.len() > 0 && a[0] == b[0] && b[0] == c[0] {
        lemma_lex_transitive(a.drop_first(), b.drop_first(), c.drop_first());
    }
}

/// `lex_le` is a total order.
pub proof fn lemma_lex_le_total_ordering()
    ensures
        total_ordering(lex_le_rel()),
{
    let r = lex_le_rel();
    assert forall|x: Seq<char>| #[trigger] r(x, x) by {
        lemma_lex_irreflexive(x);
    }
    assert forall|x: Seq<char>, y: Seq<char>| #[trigger] r(x, y) && #[trigger] r(y, x) implies x
        == y by {
        lemma_lex_total(x, y);
    }
    assert forall|x: Seq<char>, y: Seq<char>, z: Seq<char>| #[trigger]
        r(x, y) && #[trigger] r(y, z) implies r(x, z) by {
        if lex_lt(z, x) {
            lemma_lex_total(y, z);
            lemma_lex_total(x, y);
            if lex_lt(y, z) {
                lemma_lex_transitive(y, z, x);
            } else if y == z {
            } else {
                assert(lex_lt(z, y));
            }
        }
    }
    assert forall|x: Seq<char>, y: Seq<char>| #[trigger] r(x, y) || #[trigger] r(y, x) by {
        lemma_lex_asymmetric(x, y);
    }
}

proof fn lemma_lex_common_prefix(a: Seq<char>, b: Seq<char>, i: int)
    requires
        0 <= i <= a.len(),
        i <= b.len(),
        a.take(i) == b.take(i),
    ensures
        lex_lt(a, b) == lex_lt(a.skip(i), b.skip(i)),
    decreases i,
{
    if i > 0 {
        assert(a[0] == a.take(i)[0]);
        assert(b[0] == b.take(i)[0]);
        assert(a.drop_first().take(i - 1) =~= a.take(i).drop_first());
        assert(b.drop_first().take(i - 1) =~= b.take(i).drop_first());
        lemma_lex_common_prefix(a.drop_first(), b.drop_first(), i - 1);
        assert(a.drop_first().skip(i - 1) =~= a.skip(i));
        assert(b.drop_first().skip(i - 1) =~= b.skip(i));
    } else {
        assert(a.skip(0) =~= a);
        assert(b.skip(0) =~= b);
    }
}

/// Whether `a` comes strictly before `b` (`a < b` on `str`).
pub fn text_lt(a: &str, b: &str) -> (r: bool)
    ensures
        r == lex_lt(a@, b@),
{
    let x = chars_of(a);
    let y = chars_of(b);
    let mut i: usize = 0;
    while i < x.len() && i < y.len() && x[i] == y[i]
        invariant
            x@ == a@,
            y@ == b@,
            i <= x.len(),
            i <= y.len(),
            x@.take(i as int) == y@.take(i as int),
        decreases x.len() - i,
    {
        assert(x@.take(i + 1) =~= x@.take(i as int).push(x@[i as int]));
        assert(y@.take(i + 1) =~= y@.take(i as int).push(y@[i as int]));
        i += 1;
    }
    proof {
        lemma_lex_common_prefix(x@, y@, i as int);
    }
    if i == x.len() {
        i < y.len()
    } else if i == y.len() {
        false
    } else {
        assert(x@.skip(i as int)[0] == x@[i as int]);
        assert(y@.skip(i as int)[0] == y@[i as int]);
        x[i] < y[i]
    }
}

/// `v` sorted in the order of `str` (`Vec<String>::sort`).
pub fn sort_strings(v: Vec<String>) -> (r: Vec<String>)
    ensures
        views(r@) == views(v@).sort_by(lex_le_rel()),
{
    proof {
        lemma_lex_le_total_ordering();
    }
    let ghost rel = lex_le_rel();
    let mut r: Vec<String> = Vec::new();
    let mut i: usize = 0;
    assert(views(r@) =~= Seq::<Seq<char>>::empty());
    assert(views(v@.take(0)) =~= Seq::<Seq<char>>::empty());
    while i < v.len()
        invariant
            i <= v.len(),
            rel == lex_le_rel(),
            total_ordering(rel),
            sorted_by(views(r@), rel),
            views(r@).to_multiset() == views(v@.take(i as int)).to_multiset(),
        decreases v.len() - i,
    {
        let x = v[i].clone();
        let mut p: usize = 0;
        while p < r.len() && !text_lt(x.as_str(), r[p].as_str())
            invariant
                p <= r.len(),
                forall|k: int| 0 <= k < p ==> !lex_lt(x@, #[trigger] r@[k]@),
            decreases r.len() - p,
        {
            p += 1;
        }
        let ghost before = views(r@);
        r.insert(p, x);
        proof {
            assert(views(r@) =~= before.insert(p as int, x@));
            assert(views(v@.take(i + 1)) =~= views(v@.take(i as int)).push(v@[i as int]@));
            vstd::seq_lib::to_multiset_insert(before, p as int, x@);
            broadcast use vstd::seq_lib::to_multiset_build;

            let s = views(r@);
            assert forall|a: int, b: int| 0 <= a < b < s.len() implies #[trigger] rel(
                s[a],
                s[b],
            ) by {
                if b < p {
                    assert(s[a] == before[a] && s[b] == before[b]);
                } else if b == p {
                    assert(s[a] == before[a] && s[b] == x@);
                } else if a < p {
                    assert(s[a] == before[a] && s[b] == before[b - 1]);
                } else if a == p {
                    assert(s[a] == x@ && s[b] == before[b - 1]);
                    assert(lex_lt(x@, before[p as int]));
                    if p as int != b - 1 {
                        assert(rel(before[p as int], before[b - 1]));
                    } else {
                        lemma_lex_irreflexive(before[p as int]);
                    }
                    if lex_lt(before[b - 1], x@) {
                        lemma_lex_transitive(before[b - 1], x@, before[p as int]);
                    }
                } else {
                    assert(s[a] == before[a - 1] && s[b] == before[b - 1]);
                }
            }
        }
        i += 1;
    }
    proof {
        assert(v@.take(v@.len() as int) =~= v@);
        views(v@).lemma_sort_by_ensures(rel);
        vstd::seq_lib::lemma_sorted_unique(views(r@), views(v@).sort_by(rel), rel);
    }
    r
}

/// The strings of `list` with `sep` between each two (`[String]::join`).
pub open spec fn joined(list: Seq<Seq<char>>, sep: Seq<char>) -> Seq<char>
    decreases list.len(),
{
    if list.len() == 0 {
        Seq::empty()
    } else if list.len() == 1 {
        list[0]
    } else {
        joined(list.drop_last(), sep) + sep + list.last()
    }
}

/// `v.join(sep)`.
pub fn join(v: &Vec<String>, sep: &str) -> (r: String)
    ensures
        r@ == joined(views(v@), sep@),
{
    let mut r = String::new();
    let mut i: usize = 0;
    while i < v.len()
        invariant
            i <= v.len(),
            r@ == joined(views(v@.take(i as int)), sep@),
        decreases v.len() - i,
    {
        assert(views(v@.take(i + 1)).drop_last() =~= views(v@.take(i as int)));
        if i > 0 {
            r.append(sep);
        }
        r.append(v[i].as_str());
        i += 1;
        proof {
            if i == 1 {
                assert(r@ =~= views(v@.take(1))[0]);
            }
        }
    }
    assert(v@.take(v@.len() as int) =~= v@);
    r
}

/// Some string occurs twice in `s`.
pub open spec fn has_repeat(s: Seq<Seq<char>>) -> bool {
    exists|i: int, j: int| 0 <= i < j < s.len() && s[i] == s[j]
}

/// Whether some string occurs twice in `v`.
pub fn has_duplicate(v: &Vec<String>) -> (r: bool)
    ensures
        r == has_repeat(views(v@)),
        r <==> exists|i: int, j: int| 0 <= i < j < v@.len() && #[trigger] v@[i]@ == #[trigger] v@[j]@,
{
    let ghost s = views(v@);
    let mut j: usize = 0;
    while j < v.len()
        invariant
            j <= v.len(),
            s == views(v@),
            forall|a: int, b: int| 0 <= a < b < j ==> s[a] != s[b],
        decreases v.len() - j,
    {
        let mut i: usize = 0;
        while i < j
            invariant
                i <= j < v.len(),
                s == views(v@),
                forall|a: int| 0 <= a < i ==> s[a] != s[j as int],
            decreases j - i,
        {
            if crate::text::same_text(v[i].as_str(), v[j].as_str()) {
                assert(s[i as int] == s[j as int]);
                return true;
            }
            i += 1;
        }
        j += 1;
    }
    proof {
        assert forall|a: int, b: int| 0 <= a < b < v@.len() implies v@[a]@ != v@[b]@ by {
            assert(s[a] != s[b]);
        }
    }
    false
}

} // verus!
