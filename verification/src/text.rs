//! Character-level text handling: trimming, ASCII case mapping, prefixes,
//! searching and the splitting of strings into pieces.
use vstd::prelude::*;

verus! {

// ---------------------------------------------------------------------------
// Conversions between strings and character vectors
// ---------------------------------------------------------------------------

/// The characters of `s`, in order.
pub fn chars_of(s: &str) -> (v: Vec<char>)
    ensures
        v@ == s@,
{
    let mut v: Vec<char> = Vec::new();
    for c in it: s.chars()
        invariant
            v@ == it.seq().take(it.index() as int),
    {
        v.push(c);
    }
    v
}

/// Appends one character to a string (`String::push`).
#[verifier::external_body]
fn push_char(s: &mut String, c: char)
    ensures
        final(s)@ == old(s)@.push(c),
{
    s.push(c);
}

/// The string made of `v[from..to]`.
pub fn string_from_chars(v: &Vec<char>, from: usize, to: usize) -> (s: String)
    requires
        from <= to <= v.len(),
    ensures
        s@ == v@.subrange(from as int, to as int),
{
    let mut s = String::new();
    let mut i = from;
    while i < to
        invariant
            from <= i <= to <= v.len(),
            s@ == v@.subrange(from as int, i as int),
        decreases to - i,
    {
        push_char(&mut s, v[i]);
        i += 1;
    }
    s
}

/// The string made of all of `v`.
pub fn string_of(v: &Vec<char>) -> (s: String)
    ensures
        s@ == v@,
{
    let s = string_from_chars(v, 0, v.len());
    assert(v@.subrange(0, v@.len() as int) =~= v@);
    s
}

/// Whether two strings hold the same characters.
pub fn same_text(a: &str, b: &str) -> (r: bool)
    ensures
        r == (a@ == b@),
{
    let x = chars_of(a);
    let y = chars_of(b);
    if x.len() != y.len() {
        return false;
    }
    let mut i: usize = 0;
    while i < x.len()
        invariant
            x@ == a@,
            y@ == b@,
            x.len() == y.len(),
            i <= x.len(),
            forall|j: int| 0 <= j < i ==> x@[j] == y@[j],
        decreases x.len() - i,
    {
        if x[i] != y[i] {
            return false;
        }
        i += 1;
    }
    assert(x@ =~= y@);
    true
}

/// The concatenation `a + b`.
pub fn concat_text(a: &str, b: &str) -> (r: String)
    ensures
        r@ == a@ + b@,
{
    let mut r = String::from_str(a);
    r.append(b);
    r
}

// ---------------------------------------------------------------------------
// Stripping characters from both ends
// ---------------------------------------------------------------------------

/// Unicode `White_Space` characters, those that `str::trim` removes.
pub open spec fn is_white_space(c: char) -> bool {
    ||| ('\u{9}' <= c && c <= '\u{d}')
    ||| c == ' '
    ||| c == '\u{85}'
    ||| c == '\u{a0}'
    ||| c == '\u{1680}'
    ||| ('\u{2000}' <= c && c <= '\u{200a}')
    ||| c == '\u{2028}'
    ||| c == '\u{2029}'
    ||| c == '\u{202f}'
    ||| c == '\u{205f}'
    ||| c == '\u{3000}'
}

fn white_space(c: char) -> (b: bool)
    ensures
        b == is_white_space(c),
{
    ('\u{9}' <= c && c <= '\u{d}') || c == ' ' || c == '\u{85}' || c == '\u{a0}' || c
        == '\u{1680}' || ('\u{2000}' <= c && c <= '\u{200a}') || c == '\u{2028}' || c
        == '\u{2029}' || c == '\u{202f}' || c == '\u{205f}' || c == '\u{3000}'
}

/// `s` with every leading character that satisfies `p` removed.
pub open spec fn strip_front(s: Seq<char>, p: spec_fn(char) -> bool) -> Seq<char>
    decreases s.len(),
{
    if s.len() > 0 && p(s[0]) {
        strip_front(s.drop_first(), p)
    } else {
        s
    }
}

/// `s` with every trailing character that satisfies `p` removed.
pub open spec fn strip_back(s: Seq<char>, p: spec_fn(char) -> bool) -> Seq<char>
    decreases s.len(),
{
    if s.len() > 0 && p(s.last()) {
        strip_back(s.drop_last(), p)
    } else {
        s
    }
}

/// White space as a predicate.
pub open spec fn white_space_pred() -> spec_fn(char) -> bool {
    |c: char| is_white_space(c)
}

/// Being the character `ch`, as a predicate.
pub open spec fn char_pred(ch: char) -> spec_fn(char) -> bool {
    |c: char| c == ch
}

/// `s` with leading and trailing white space removed (`str::trim`).
pub open spec fn trimmed(s: Seq<char>) -> Seq<char> {
    strip_back(strip_front(s, white_space_pred()), white_space_pred())
}

/// `s` with every leading and trailing `ch` removed (`str::trim_matches(ch)`).
pub open spec fn trimmed_of(s: Seq<char>, ch: char) -> Seq<char> {
    strip_back(strip_front(s, char_pred(ch)), char_pred(ch))
}

proof fn lemma_strip_front(s: Seq<char>, p: spec_fn(char) -> bool, a: int)
    requires
        0 <= a <= s.len(),
        forall|i: int| 0 <= i < a ==> p(#[trigger] s[i]),
        a == s.len() || !p(s[a]),
    ensures
        strip_front(s, p) == s.subrange(a, s.len() as int),
    decreases a,
{
    if a > 0 {
        let t = s.drop_first();
        assert forall|i: int| 0 <= i < a - 1 implies p(#[trigger] t[i]) by {
            assert(t[i] == s[i + 1]);
        }
        lemma_strip_front(t, p, a - 1);
        assert(t.subrange(a - 1, t.len() as int) =~= s.subrange(a, s.len() as int));
    } else {
        assert(s.subrange(0, s.len() as int) =~= s);
    }
}

proof fn lemma_strip_back(s: Seq<char>, p: spec_fn(char) -> bool, b: int)
    requires
        0 <= b <= s.len(),
        forall|i: int| b <= i < s.len() ==> p(#[trigger] s[i]),
        b == 0 || !p(s[b - 1]),
    ensures
        strip_back(s, p) == s.subrange(0, b),
    decreases s.len() - b,
{
    if b < s.len() {
        let t = s.drop_last();
        assert(p(s.last()));
        assert forall|i: int| b <= i < t.len() implies p(#[trigger] t[i]) by {
            assert(t[i] == s[i]);
        }
        lemma_strip_back(t, p, b);
        assert(t.subrange(0, b) =~= s.subrange(0, b));
    } else {
        assert(s.subrange(0, b) =~= s);
        if b > 0 {
            assert(s.last() == s[b - 1]);
        }
    }
}

/// Which characters a stripping removes.
enum Strip {
    WhiteSpace,
    Exactly(char),
}

spec fn strip_pred(m: Strip) -> spec_fn(char) -> bool {
    match m {
        Strip::WhiteSpace => white_space_pred(),
        Strip::Exactly(ch) => char_pred(ch),
    }
}

fn strip_matches(m: &Strip, c: char) -> (b: bool)
    ensures
        b == strip_pred(*m)(c),
{
    match m {
        Strip::WhiteSpace => white_space(c),
        Strip::Exactly(ch) => c == *ch,
    }
}

/// The characters of `s` that remain after stripping from both ends.
fn strip_chars(s: &str, m: Strip) -> (r: Vec<char>)
    ensures
        r@ == strip_back(strip_front(s@, strip_pred(m)), strip_pred(m)),
{
    let v = chars_of(s);
    let ghost p = strip_pred(m);
    let mut a: usize = 0;
    while a < v.len() && strip_matches(&m, v[a])
        invariant
            v@ == s@,
            p == strip_pred(m),
            a <= v.len(),
            forall|i: int| 0 <= i < a ==> p(#[trigger] v@[i]),
        decreases v.len() - a,
    {
        a += 1;
    }
    proof {
        lemma_strip_front(v@, p, a as int);
    }
    let ghost front = v@.subrange(a as int, v@.len() as int);
    let mut b: usize = v.len();
    while b > a && strip_matches(&m, v[b - 1])
        invariant
            v@ == s@,
            p == strip_pred(m),
            a <= b <= v.len(),
            front == v@.subrange(a as int, v@.len() as int),
            forall|i: int| b <= i < v@.len() ==> p(#[trigger] v@[i]),
        decreases b,
    {
        b -= 1;
    }
    proof {
        assert forall|i: int| b - a <= i < front.len() implies p(#[trigger] front[i]) by {
            assert(front[i] == v@[i + a]);
        }
        if b > a {
            assert(front[b - a - 1] == v@[b - 1]);
        }
        lemma_strip_back(front, p, b - a);
        assert(front.subrange(0, b - a) =~= v@.subrange(a as int, b as int));
    }
    let mut r: Vec<char> = Vec::new();
    let mut k = a;
    while k < b
        invariant
            a <= k <= b <= v.len(),
            r@ == v@.subrange(a as int, k as int),
        decreases b - k,
    {
        r.push(v[k]);
        k += 1;
    }
    r
}

/// `s` without leading and trailing white space (`str::trim`).
pub fn trim(s: &str) -> (r: String)
    ensures
        r@ == trimmed(s@),
{
    let v = strip_chars(s, Strip::WhiteSpace);
    string_of(&v)
}

/// `s` without leading and trailing `ch` (`str::trim_matches(ch)`).
pub fn trim_char(s: &str, ch: char) -> (r: String)
    ensures
        r@ == trimmed_of(s@, ch),
{
    let v = strip_chars(s, Strip::Exactly(ch));
    string_of(&v)
}

// ---------------------------------------------------------------------------
// ASCII case mapping
// ---------------------------------------------------------------------------

/// `c` in ASCII upper case: `a`..`z` become `A`..`Z`, all else stays.
pub open spec fn upper_char(c: char) -> char {
    if 'a' <= c && c <= 'z' {
        ((c as int) - 32) as char
    } else {
        c
    }
}

/// `c` in ASCII lower case: `A`..`Z` become `a`..`z`, all else stays.
pub open spec fn lower_char(c: char) -> char {
    if 'A' <= c && c <= 'Z' {
        ((c as int) + 32) as char
    } else {
        c
    }
}

/// `s` with each character mapped to its ASCII upper case.
pub open spec fn ascii_upper(s: Seq<char>) -> Seq<char> {
    s.map_values(|c: char| upper_char(c))
}

/// `s` with each character mapped to its ASCII lower case.
pub open spec fn ascii_lower(s: Seq<char>) -> Seq<char> {
    s.map_values(|c: char| lower_char(c))
}

fn upper_of(c: char) -> (r: char)
    ensures
        r == upper_char(c),
{
    if 'a' <= c && c <= 'z' {
        ((c as u8) - 32) as char
    } else {
        c
    }
}

fn lower_of(c: char) -> (r: char)
    ensures
        r == lower_char(c),
{
    if 'A' <= c && c <= 'Z' {
        ((c as u8) + 32) as char
    } else {
        c
    }
}

/// `s` in ASCII upper case (`str::to_ascii_uppercase`).
pub fn to_ascii_uppercase(s: &str) -> (r: String)
    ensures
        r@ == ascii_upper(s@),
{
    let v = chars_of(s);
    let mut r = String::new();
    let mut i: usize = 0;
    while i < v.len()
        invariant
            v@ == s@,
            i <= v.len(),
            r@ == ascii_upper(v@.subrange(0, i as int)),
        decreases v.len() - i,
    {
        push_char(&mut r, upper_of(v[i]));
        i += 1;
        assert(ascii_upper(v@.subrange(0, i as int)) =~= ascii_upper(
            v@.subrange(0, i - 1),
        ).push(upper_char(v@[i - 1])));
    }
    assert(v@.subrange(0, v@.len() as int) =~= v@);
    r
}

/// `s` in ASCII lower case (`str::to_ascii_lowercase`).
pub fn to_ascii_lowercase(s: &str) -> (r: String)
    ensures
        r@ == ascii_lower(s@),
{
    let v = chars_of(s);
    let mut r = String::new();
    let mut i: usize = 0;
    while i < v.len()
        invariant
            v@ == s@,
            i <= v.len(),
            r@ == ascii_lower(v@.subrange(0, i as int)),
        decreases v.len() - i,
    {
        push_char(&mut r, lower_of(v[i]));
        i += 1;
        assert(ascii_lower(v@.subrange(0, i as int)) =~= ascii_lower(
            v@.subrange(0, i - 1),
        ).push(lower_char(v@[i - 1])));
    }
    assert(v@.subrange(0, v@.len() as int) =~= v@);
    r
}

// ---------------------------------------------------------------------------
// Prefixes and occurrences
// ---------------------------------------------------------------------------

/// `p` is a prefix of `s`.
pub open spec fn has_prefix(s: Seq<char>, p: Seq<char>) -> bool {
    p.len() <= s.len() && s.subrange(0, p.len() as int) == p
}

/// `pat` occurs in `s` starting at position `k`.
pub open spec fn occurs_at(s: Seq<char>, pat: Seq<char>, k: int) -> bool {
    0 <= k && k + pat.len() <= s.len() && s.subrange(k, k + pat.len()) == pat
}

/// `k` is the first position at which `pat` occurs in `s`.
pub open spec fn first_at(s: Seq<char>, pat: Seq<char>, k: int) -> bool {
    occurs_at(s, pat, k) && forall|j: int| 0 <= j < k ==> !occurs_at(s, pat, j)
}

/// Where `pat` first occurs in `s`, if anywhere.
pub open spec fn first_occurrence(s: Seq<char>, pat: Seq<char>) -> Option<int> {
    if exists|k: int| first_at(s, pat, k) {
        Some(choose|k: int| first_at(s, pat, k))
    } else {
        None
    }
}

proof fn lemma_first_at_unique(s: Seq<char>, pat: Seq<char>, k: int)
    requires
        first_at(s, pat, k),
    ensures
        first_occurrence(s, pat) == Some(k),
{
    let c = choose|j: int| first_at(s, pat, j);
    assert(first_at(s, pat, c));
    if c < k {
        assert(!occurs_at(s, pat, c));
    }
    if k < c {
        assert(!occurs_at(s, pat, k));
    }
}

/// Whether `pat` occurs in `s` at `k`.
fn matches_at(s: &Vec<char>, pat: &Vec<char>, k: usize) -> (r: bool)
    requires
        k <= s.len(),
    ensures
        r == occurs_at(s@, pat@, k as int),
{
    if pat.len() > s.len() - k {
        return false;
    }
    let mut i: usize = 0;
    while i < pat.len()
        invariant
            k + pat.len() <= s.len(),
            i <= pat.len(),
            forall|j: int| 0 <= j < i ==> s@[k + j] == pat@[j],
        decreases pat.len() - i,
    {
        if s[k + i] != pat[i] {
            assert(s@.subrange(k as int, k + pat.len())[i as int] != pat@[i as int]);
            return false;
        }
        i += 1;
    }
    assert(s@.subrange(k as int, k + pat.len()) =~= pat@);
    true
}

/// The first position at which `pat` occurs in `s`, if any.
pub fn find(s: &Vec<char>, pat: &Vec<char>) -> (r: Option<usize>)
    ensures
        match r {
            Some(k) => first_occurrence(s@, pat@) == Some(k as int),
            None => first_occurrence(s@, pat@) is None,
        },
{
    if pat.len() > s.len() {
        proof {
            assert forall|j: int| !first_at(s@, pat@, j) by {}
        }
        return None;
    }
    let last = s.len() - pat.len();
    let mut k: usize = 0;
    loop
        invariant
            pat.len() <= s.len(),
            last == s.len() - pat.len(),
            k <= last,
            forall|j: int| 0 <= j < k ==> !occurs_at(s@, pat@, j),
        ensures
            forall|j: int| 0 <= j <= last ==> !occurs_at(s@, pat@, j),
        decreases last - k,
    {
        if matches_at(s, pat, k) {
            proof {
                lemma_first_at_unique(s@, pat@, k as int);
            }
            return Some(k);
        }
        if k == last {
            break;
        }
        k += 1;
    }
    proof {
        assert forall|j: int| !first_at(s@, pat@, j) by {
            if occurs_at(s@, pat@, j) {
                assert(j <= last);
            }
        }
    }
    None
}

/// Whether `s` starts with `p` (`str::starts_with`).
pub fn starts_with(s: &str, p: &str) -> (r: bool)
    ensures
        r == has_prefix(s@, p@),
{
    let x = chars_of(s);
    let y = chars_of(p);
    let r = matches_at(&x, &y, 0);
    proof {
        if r {
            assert(x@.subrange(0, y@.len() as int) == y@);
        }
    }
    r
}

/// The piece of `s` before the first occurrence of `pat`, or all of `s`.
pub open spec fn before_first(s: Seq<char>, pat: Seq<char>) -> Seq<char> {
    match first_occurrence(s, pat) {
        Some(k) => s.subrange(0, k),
        None => s,
    }
}

/// The piece of `s` after the first occurrence of `pat`, if `pat` occurs.
pub open spec fn after_first(s: Seq<char>, pat: Seq<char>) -> Option<Seq<char>> {
    match first_occurrence(s, pat) {
        Some(k) => Some(s.subrange(k + pat.len(), s.len() as int)),
        None => None,
    }
}

proof fn lemma_first_occurrence_bounds(s: Seq<char>, pat: Seq<char>)
    ensures
        first_occurrence(s, pat) matches Some(k) ==> 0 <= k && k + pat.len() <= s.len(),
{
    if exists|k: int| first_at(s, pat, k) {
        let k = choose|k: int| first_at(s, pat, k);
        assert(first_at(s, pat, k));
    }
}

/// The second piece of `s` split at `pat` (`s.split(pat).nth(1)`), if there is one.
pub open spec fn second_piece(s: Seq<char>, pat: Seq<char>) -> Option<Seq<char>> {
    match after_first(s, pat) {
        Some(rest) => Some(before_first(rest, pat)),
        None => None,
    }
}

/// `v[from..]`.
fn tail_of(v: &Vec<char>, from: usize) -> (r: Vec<char>)
    requires
        from <= v.len(),
    ensures
        r@ == v@.subrange(from as int, v@.len() as int),
{
    let mut r: Vec<char> = Vec::new();
    let mut k = from;
    while k < v.len()
        invariant
            from <= k <= v.len(),
            r@ == v@.subrange(from as int, k as int),
        decreases v.len() - k,
    {
        r.push(v[k]);
        k += 1;
    }
    r
}

/// `v[..to]`.
fn head_of(v: &Vec<char>, to: usize) -> (r: Vec<char>)
    requires
        to <= v.len(),
    ensures
        r@ == v@.subrange(0, to as int),
{
    let mut r: Vec<char> = Vec::new();
    let mut k: usize = 0;
    while k < to
        invariant
            k <= to <= v.len(),
            r@ == v@.subrange(0, k as int),
        decreases to - k,
    {
        r.push(v[k]);
        k += 1;
    }
    r
}

/// The piece of `s` before the first `pat`, or all of `s`.
pub fn piece_before(s: &Vec<char>, pat: &Vec<char>) -> (r: Vec<char>)
    ensures
        r@ == before_first(s@, pat@),
{
    proof {
        lemma_first_occurrence_bounds(s@, pat@);
    }
    match find(s, pat) {
        Some(k) => head_of(s, k),
        None => {
            let r = tail_of(s, 0);
            assert(s@.subrange(0, s@.len() as int) =~= s@);
            r
        },
    }
}

/// The piece of `s` after the first `pat`, if `pat` occurs.
pub fn piece_after(s: &Vec<char>, pat: &Vec<char>) -> (r: Option<Vec<char>>)
    ensures
        match r {
            Some(t) => after_first(s@, pat@) == Some(t@),
            None => after_first(s@, pat@) is None,
        },
{
    proof {
        lemma_first_occurrence_bounds(s@, pat@);
    }
    match find(s, pat) {
        Some(k) => {
            assert(k + pat.len() <= s.len());
            Some(tail_of(s, k + pat.len()))
        },
        None => None,
    }
}

} // verus!
