//! Character-sequence primitives shared by the text rules: conversion between
//! `str` and `Vec<char>`, whitespace trimming, searching, splitting, joining
//! and decimal formatting, each with the spec function it computes.
use vstd::prelude::*;
use vstd::std_specs::iter::IteratorSpec;

verus! {

broadcast use vstd::string::group_string_axioms;

// ---------------------------------------------------------------------------
// Conversion between `str` and `Vec<char>`
// ---------------------------------------------------------------------------

/// The characters of `s`, in order.
pub fn str_chars(s: &str) -> (r: Vec<char>)
    ensures
        r@ == s@,
{
    let mut out: Vec<char> = Vec::new();
    let mut it = s.chars();
    let ghost all = s@;
    assert(it.remaining() == s@);
    loop
        invariant
            it.obeys_prophetic_iter_laws(),
            all == s@,
            out@ + it.remaining() == all,
            it.decrease() is Some,
        decreases it.decrease()->0,
    {
        let ghost before = it.remaining();
        match it.next() {
            Some(c) => {
                proof {
                    assert(before.len() > 0);
                    assert(before == seq![c] + before.drop_first());
                }
                out.push(c);
                assert(out@ + it.remaining() =~= all);
            },
            None => {
                assert(it.remaining().len() == 0);
                assert(out@ =~= all);
                return out;
            },
        }
    }
}

/// The string made of the characters `v`, in order.
#[verifier::external_body]
pub(crate) fn string_of(v: &[char]) -> (r: String)
    ensures
        r@ == v@,
{
    v.iter().collect()
}


// ---------------------------------------------------------------------------
// Whitespace and trimming
// ---------------------------------------------------------------------------

/// Unicode `White_Space`, the property that `char::is_whitespace` tests.
pub open spec fn is_ws(c: char) -> bool {
    ||| c == '\t'
    ||| c == '\n'
    ||| c == '\u{0B}'
    ||| c == '\u{0C}'
    ||| c == '\r'
    ||| c == ' '
    ||| c == '\u{85}'
    ||| c == '\u{A0}'
    ||| c == '\u{1680}'
    ||| ('\u{2000}' <= c && c <= '\u{200A}')
    ||| c == '\u{2028}'
    ||| c == '\u{2029}'
    ||| c == '\u{202F}'
    ||| c == '\u{205F}'
    ||| c == '\u{3000}'
}

pub fn is_whitespace(c: char) -> (r: bool)
    ensures
        r == is_ws(c),
{
    c == '\t' || c == '\n' || c == '\u{0B}' || c == '\u{0C}' || c == '\r' || c == ' ' || c
        == '\u{85}' || c == '\u{A0}' || c == '\u{1680}' || ('\u{2000}' <= c && c <= '\u{200A}')
        || c == '\u{2028}' || c == '\u{2029}' || c == '\u{202F}' || c == '\u{205F}' || c
        == '\u{3000}'
}

/// A set of characters to strip: whitespace when `ws` holds, and every
/// character of `set`.
pub open spec fn in_class(c: char, ws: bool, set: Seq<char>) -> bool {
    (ws && is_ws(c)) || set.contains(c)
}

pub fn is_in_class(c: char, ws: bool, set: &[char]) -> (r: bool)
    ensures
        r == in_class(c, ws, set@),
{
    if ws && is_whitespace(c) {
        return true;
    }
    let mut i: usize = 0;
    while i < set.len()
        invariant
            i <= set.len(),
            forall|k: int| 0 <= k < i ==> set@[k] != c,
        decreases set.len() - i,
    {
        if set[i] == c {
            assert(set@.contains(c));
            return true;
        }
        i = i + 1;
    }
    assert(!set@.contains(c));
    false
}

/// `s` without its leading characters of the class.
pub open spec fn strip_start(s: Seq<char>, ws: bool, set: Seq<char>) -> Seq<char>
    decreases s.len(),
{
    if s.len() > 0 && in_class(s[0], ws, set) {
        strip_start(s.drop_first(), ws, set)
    } else {
        s
    }
}

/// `s` without its trailing characters of the class.
pub open spec fn strip_end(s: Seq<char>, ws: bool, set: Seq<char>) -> Seq<char>
    decreases s.len(),
{
    if s.len() > 0 && in_class(s.last(), ws, set) {
        strip_end(s.drop_last(), ws, set)
    } else {
        s
    }
}

/// `str::trim_start`.
pub open spec fn trim_start(s: Seq<char>) -> Seq<char> {
    strip_start(s, true, seq![])
}

/// `str::trim_end`.
pub open spec fn trim_end(s: Seq<char>) -> Seq<char> {
    strip_end(s, true, seq![])
}

/// `str::trim`.
pub open spec fn trim(s: Seq<char>) -> Seq<char> {
    strip_end(strip_start(s, true, seq![]), true, seq![])
}

/// `str::trim_matches(c)`.
pub open spec fn trim_char(s: Seq<char>, c: char) -> Seq<char> {
    strip_end(strip_start(s, false, seq![c]), false, seq![c])
}

/// Index of the first character of `s` at or after `from` outside the class.
pub fn skip_class(s: &[char], from: usize, ws: bool, set: &[char]) -> (i: usize)
    requires
        from <= s.len(),
    ensures
        from <= i <= s.len(),
        strip_start(s@.skip(from as int), ws, set@) == s@.skip(i as int),
{
    let mut i = from;
    while i < s.len() && is_in_class(s[i], ws, set)
        invariant
            from <= i <= s.len(),
            strip_start(s@.skip(from as int), ws, set@) == strip_start(s@.skip(i as int), ws, set@),
        decreases s.len() - i,
    {
        assert(s@.skip(i as int).drop_first() =~= s@.skip(i + 1));
        i = i + 1;
    }
    proof {
        if i < s.len() {
            assert(s@.skip(i as int)[0] == s@[i as int]);
        }
    }
    i
}

/// One past the index of the last character of `s[..to]` outside the class.
pub fn skip_class_back(s: &[char], to: usize, ws: bool, set: &[char]) -> (j: usize)
    requires
        to <= s.len(),
    ensures
        j <= to,
        strip_end(s@.take(to as int), ws, set@) == s@.take(j as int),
{
    let mut j = to;
    while j > 0 && is_in_class(s[j - 1], ws, set)
        invariant
            j <= to <= s.len(),
            strip_end(s@.take(to as int), ws, set@) == strip_end(s@.take(j as int), ws, set@),
        decreases j,
    {
        assert(s@.take(j as int).drop_last() =~= s@.take(j - 1));
        j = j - 1;
    }
    proof {
        if j > 0 {
            assert(s@.take(j as int).last() == s@[j - 1]);
        }
    }
    j
}

/// `s@.subrange(i, j)` as a vector.
pub fn slice_of(s: &[char], i: usize, j: usize) -> (r: Vec<char>)
    requires
        i <= j <= s.len(),
    ensures
        r@ == s@.subrange(i as int, j as int),
{
    let mut r: Vec<char> = Vec::new();
    let mut k = i;
    while k < j
        invariant
            i <= k <= j <= s.len(),
            r@ == s@.subrange(i as int, k as int),
        decreases j - k,
    {
        r.push(s[k]);
        assert(r@ =~= s@.subrange(i as int, k + 1));
        k = k + 1;
    }
    r
}

/// Appends `t` to `v`.
pub fn push_all(v: &mut Vec<char>, t: &[char])
    ensures
        final(v)@ == old(v)@ + t@,
{
    let ghost v0 = v@;
    let mut k: usize = 0;
    while k < t.len()
        invariant
            k <= t.len(),
            v@ == v0 + t@.take(k as int),
        decreases t.len() - k,
    {
        v.push(t[k]);
        assert(t@.take(k + 1) =~= t@.take(k as int).push(t@[k as int]));
        k = k + 1;
    }
    assert(t@.take(t.len() as int) =~= t@);
}

/// Appends the characters of `t` to `v`.
pub fn push_str(v: &mut Vec<char>, t: &str)
    ensures
        final(v)@ == old(v)@ + t@,
{
    let cs = str_chars(t);
    push_all(v, &cs);
}

pub fn strip_chars(s: &[char], ws: bool, set: &[char]) -> (r: Vec<char>)
    ensures
        r@ == strip_end(strip_start(s@, ws, set@), ws, set@),
{
    let i = skip_class(s, 0, ws, set);
    assert(s@.skip(0) =~= s@);
    let t = slice_of(s, i, s.len());
    assert(t@ =~= s@.skip(i as int));
    let j = skip_class_back(&t, t.len(), ws, set);
    assert(t@.take(t.len() as int) =~= t@);
    slice_of(&t, 0, j)
}

pub fn strip_start_chars(s: &[char], ws: bool, set: &[char]) -> (r: Vec<char>)
    ensures
        r@ == strip_start(s@, ws, set@),
{
    let i = skip_class(s, 0, ws, set);
    assert(s@.skip(0) =~= s@);
    let r = slice_of(s, i, s.len());
    assert(r@ =~= s@.skip(i as int));
    r
}

pub fn strip_end_chars(s: &[char], ws: bool, set: &[char]) -> (r: Vec<char>)
    ensures
        r@ == strip_end(s@, ws, set@),
{
    let j = skip_class_back(s, s.len(), ws, set);
    assert(s@.take(s.len() as int) =~= s@);
    let r = slice_of(s, 0, j);
    assert(r@ =~= s@.take(j as int));
    r
}

pub fn trim_chars(s: &[char]) -> (r: Vec<char>)
    ensures
        r@ == trim(s@),
{
    let none: [char; 0] = [];
    assert(none@ =~= Seq::<char>::empty());
    strip_chars(s, true, &none)
}

pub fn trim_start_chars(s: &[char]) -> (r: Vec<char>)
    ensures
        r@ == trim_start(s@),
{
    let none: [char; 0] = [];
    assert(none@ =~= Seq::<char>::empty());
    strip_start_chars(s, true, &none)
}

pub fn trim_end_chars(s: &[char]) -> (r: Vec<char>)
    ensures
        r@ == trim_end(s@),
{
    let none: [char; 0] = [];
    assert(none@ =~= Seq::<char>::empty());
    strip_end_chars(s, true, &none)
}

pub fn trim_char_chars(s: &[char], c: char) -> (r: Vec<char>)
    ensures
        r@ == trim_char(s@, c),
{
    let one = [c];
    assert(one@ =~= seq![c]);
    strip_chars(s, false, &one)
}

/// `s.trim()` on a `str`.
pub fn trim_str(s: &str) -> (r: Vec<char>)
    ensures
        r@ == trim(s@),
{
    let cs = str_chars(s);
    trim_chars(&cs)
}

pub proof fn lemma_strip_start_idem(s: Seq<char>, ws: bool, set: Seq<char>)
    ensures
        strip_start(strip_start(s, ws, set), ws, set) == strip_start(s, ws, set),
        strip_start(s, ws, set).len() > 0 ==> !in_class(strip_start(s, ws, set)[0], ws, set),
    decreases s.len(),
{
    if s.len() > 0 && in_class(s[0], ws, set) {
        lemma_strip_start_idem(s.drop_first(), ws, set);
    }
}

pub proof fn lemma_strip_end_idem(s: Seq<char>, ws: bool, set: Seq<char>)
    ensures
        strip_end(strip_end(s, ws, set), ws, set) == strip_end(s, ws, set),
        strip_end(s, ws, set).len() > 0 ==> !in_class(strip_end(s, ws, set).last(), ws, set),
    decreases s.len(),
{
    if s.len() > 0 && in_class(s.last(), ws, set) {
        lemma_strip_end_idem(s.drop_last(), ws, set);
    }
}

/// Stripping the end keeps a prefix of `s`.
pub proof fn lemma_strip_end_prefix(s: Seq<char>, ws: bool, set: Seq<char>)
    ensures
        strip_end(s, ws, set).len() <= s.len(),
        strip_end(s, ws, set) == s.take(strip_end(s, ws, set).len() as int),
    decreases s.len(),
{
    if s.len() > 0 && in_class(s.last(), ws, set) {
        lemma_strip_end_prefix(s.drop_last(), ws, set);
        assert(s.drop_last().take(strip_end(s, ws, set).len() as int) =~= s.take(
            strip_end(s, ws, set).len() as int,
        ));
    } else {
        assert(s.take(s.len() as int) =~= s);
    }
}

/// Stripping the start keeps a suffix of `s`.
pub proof fn lemma_strip_start_suffix(s: Seq<char>, ws: bool, set: Seq<char>)
    ensures
        strip_start(s, ws, set).len() <= s.len(),
        strip_start(s, ws, set) == s.skip(s.len() - strip_start(s, ws, set).len()),
    decreases s.len(),
{
    if s.len() > 0 && in_class(s[0], ws, set) {
        lemma_strip_start_suffix(s.drop_first(), ws, set);
        assert(s.drop_first().skip(s.len() - 1 - strip_start(s, ws, set).len()) =~= s.skip(
            s.len() - strip_start(s, ws, set).len(),
        ));
    } else {
        assert(s.skip(0) =~= s);
    }
}

/// A stripped sequence begins and ends outside the class.
pub proof fn lemma_strip_both(s: Seq<char>, ws: bool, set: Seq<char>)
    ensures
        ({
            let t = strip_end(strip_start(s, ws, set), ws, set);
            &&& t.len() > 0 ==> !in_class(t[0], ws, set)
            &&& t.len() > 0 ==> !in_class(t.last(), ws, set)
            &&& strip_end(strip_start(t, ws, set), ws, set) == t
        }),
{
    let a = strip_start(s, ws, set);
    let t = strip_end(a, ws, set);
    lemma_strip_start_idem(s, ws, set);
    lemma_strip_end_idem(a, ws, set);
    lemma_strip_end_prefix(a, ws, set);
    if t.len() > 0 {
        assert(t[0] == a[0]);
        assert(!in_class(t[0], ws, set));
        assert(strip_start(t, ws, set) == t);
    } else {
        assert(strip_start(t, ws, set) == t);
    }
}

/// `trim` is idempotent, and a trimmed sequence has no whitespace at either end.
pub proof fn lemma_trim_trimmed(s: Seq<char>)
    ensures
        trim(trim(s)) == trim(s),
        trim(s).len() > 0 ==> !is_ws(trim(s)[0]) && !is_ws(trim(s).last()),
{
    lemma_strip_both(s, true, seq![]);
}


// ---------------------------------------------------------------------------
// Searching
// ---------------------------------------------------------------------------

/// `p` occurs in `s` at index `i`.
pub open spec fn occurs_at(s: Seq<char>, p: Seq<char>, i: int) -> bool {
    0 <= i && i + p.len() <= s.len() && s.subrange(i, i + p.len()) == p
}

/// `str::contains` with a string pattern.
pub open spec fn contains_seq(s: Seq<char>, p: Seq<char>) -> bool {
    exists|i: int| occurs_at(s, p, i)
}

/// `str::starts_with`.
pub open spec fn starts_with(s: Seq<char>, p: Seq<char>) -> bool {
    p.len() <= s.len() && s.take(p.len() as int) == p
}

/// `str::ends_with`.
pub open spec fn ends_with(s: Seq<char>, p: Seq<char>) -> bool {
    p.len() <= s.len() && s.skip(s.len() - p.len()) == p
}

/// The first index at or after `i` where `p` occurs in `s` (`str::find`).
pub open spec fn find_from(s: Seq<char>, p: Seq<char>, i: int) -> Option<int>
    decreases s.len() + 1 - i,
{
    if i < 0 || i > s.len() {
        None
    } else if occurs_at(s, p, i) {
        Some(i)
    } else {
        find_from(s, p, i + 1)
    }
}

pub proof fn lemma_find_from(s: Seq<char>, p: Seq<char>, i: int)
    requires
        0 <= i,
    ensures
        match find_from(s, p, i) {
            Some(k) => i <= k && occurs_at(s, p, k) && forall|m: int|
                i <= m < k ==> !occurs_at(s, p, m),
            None => forall|m: int| i <= m ==> !occurs_at(s, p, m),
        },
    decreases s.len() + 1 - i,
{
    if i > s.len() {
        assert forall|m: int| i <= m implies !occurs_at(s, p, m) by {}
    } else if !occurs_at(s, p, i) {
        lemma_find_from(s, p, i + 1);
    }
}

/// `contains_seq` is a successful search from the start.
pub proof fn lemma_contains_find(s: Seq<char>, p: Seq<char>)
    ensures
        contains_seq(s, p) <==> find_from(s, p, 0) is Some,
{
    lemma_find_from(s, p, 0);
    if let Some(k) = find_from(s, p, 0) {
        assert(occurs_at(s, p, k));
    }
}

pub fn matches_at(s: &[char], p: &[char], i: usize) -> (r: bool)
    ensures
        r == occurs_at(s@, p@, i as int),
{
    if p.len() > s.len() || i > s.len() - p.len() {
        return false;
    }
    let mut k: usize = 0;
    while k < p.len()
        invariant
            k <= p.len(),
            i + p.len() <= s.len(),
            forall|m: int| 0 <= m < k ==> s@[i + m] == p@[m],
        decreases p.len() - k,
    {
        if s[i + k] != p[k] {
            assert(s@.subrange(i as int, i + p.len())[k as int] != p@[k as int]);
            return false;
        }
        k = k + 1;
    }
    assert(s@.subrange(i as int, i + p.len()) =~= p@);
    true
}

/// `str::find` from index `from`.
pub fn find_seq(s: &[char], p: &[char], from: usize) -> (r: Option<usize>)
    ensures
        match r {
            Some(k) => find_from(s@, p@, from as int) == Some(k as int),
            None => find_from(s@, p@, from as int) is None,
        },
{
    let mut i = from;
    if i > s.len() {
        return None;
    }
    while i < s.len()
        invariant
            from <= i <= s.len(),
            find_from(s@, p@, from as int) == find_from(s@, p@, i as int),
        decreases s.len() - i,
    {
        if matches_at(s, p, i) {
            return Some(i);
        }
        i = i + 1;
    }
    if matches_at(s, p, i) {
        return Some(i);
    }
    assert(find_from(s@, p@, i + 1) is None);
    None
}

/// `str::contains` with a string pattern.
pub fn contains_chars(s: &[char], p: &[char]) -> (r: bool)
    ensures
        r == contains_seq(s@, p@),
{
    proof {
        lemma_contains_find(s@, p@);
    }
    find_seq(s, p, 0).is_some()
}

pub fn starts_with_chars(s: &[char], p: &[char]) -> (r: bool)
    ensures
        r == starts_with(s@, p@),
{
    let r = matches_at(s, p, 0);
    proof {
        if p@.len() <= s@.len() {
            assert(s@.subrange(0, p@.len() as int) =~= s@.take(p@.len() as int));
        }
    }
    r
}

pub fn seq_eq(a: &[char], b: &[char]) -> (r: bool)
    ensures
        r == (a@ == b@),
{
    if a.len() != b.len() {
        return false;
    }
    let r = matches_at(a, b, 0);
    proof {
        assert(a@.subrange(0, b@.len() as int) =~= a@);
    }
    r
}

/// The characters `a` spell the literal `b`.
pub fn eq_str(a: &[char], b: &str) -> (r: bool)
    ensures
        r == (a@ == b@),
{
    let bc = str_chars(b);
    seq_eq(a, &bc)
}

pub fn contains_str(s: &[char], p: &str) -> (r: bool)
    ensures
        r == contains_seq(s@, p@),
{
    let pc = str_chars(p);
    contains_chars(s, &pc)
}

pub fn starts_with_str(s: &[char], p: &str) -> (r: bool)
    ensures
        r == starts_with(s@, p@),
{
    let pc = str_chars(p);
    starts_with_chars(s, &pc)
}

/// Number of occurrences of `c` in `s`.
pub open spec fn count_char(s: Seq<char>, c: char) -> nat
    decreases s.len(),
{
    if s.len() == 0 {
        0
    } else {
        count_char(s.drop_last(), c) + if s.last() == c {
            1nat
        } else {
            0nat
        }
    }
}

pub fn count_of(s: &[char], c: char) -> (r: usize)
    ensures
        r == count_char(s@, c),
{
    let mut n: usize = 0;
    let mut i: usize = 0;
    while i < s.len()
        invariant
            i <= s.len(),
            n == count_char(s@.take(i as int), c),
            n <= i,
        decreases s.len() - i,
    {
        assert(s@.take(i + 1).drop_last() =~= s@.take(i as int));
        if s[i] == c {
            n = n + 1;
        }
        i = i + 1;
    }
    assert(s@.take(s.len() as int) =~= s@);
    n
}

/// `s` contains a character of the class.
pub open spec fn has_class(s: Seq<char>, ws: bool, set: Seq<char>) -> bool {
    exists|i: int| 0 <= i < s.len() && in_class(s[i], ws, set)
}

pub fn has_class_chars(s: &[char], ws: bool, set: &[char]) -> (r: bool)
    ensures
        r == has_class(s@, ws, set@),
{
    let mut i: usize = 0;
    while i < s.len()
        invariant
            i <= s.len(),
            forall|k: int| 0 <= k < i ==> !in_class(s@[k], ws, set@),
        decreases s.len() - i,
    {
        if is_in_class(s[i], ws, set) {
            return true;
        }
        i = i + 1;
    }
    false
}

// ---------------------------------------------------------------------------
// Splitting and joining
// ---------------------------------------------------------------------------

/// The views of a sequence of character vectors.
pub open spec fn views(v: Seq<Vec<char>>) -> Seq<Seq<char>> {
    v.map_values(|x: Vec<char>| x@)
}

/// The pieces of `s` between characters of the class (`str::split` with a
/// character predicate): always at least one piece, empty pieces kept.
pub open spec fn split_class(s: Seq<char>, ws: bool, set: Seq<char>) -> Seq<Seq<char>>
    decreases s.len(),
{
    if s.len() == 0 {
        seq![Seq::<char>::empty()]
    } else {
        let rest = split_class(s.drop_last(), ws, set);
        if in_class(s.last(), ws, set) {
            rest.push(Seq::<char>::empty())
        } else {
            rest.update(rest.len() - 1, rest.last().push(s.last()))
        }
    }
}

pub proof fn lemma_split_class_nonempty(s: Seq<char>, ws: bool, set: Seq<char>)
    ensures
        split_class(s, ws, set).len() >= 1,
    decreases s.len(),
{
    if s.len() > 0 {
        lemma_split_class_nonempty(s.drop_last(), ws, set);
    }
}

/// The lines of `s`: the pieces between `'\n'` characters. Each use of it in
/// this crate trims every line and skips blank ones, which makes it agree with
/// `str::lines` (that also drops a `'\r'` before each `'\n'` and a last empty
/// line).
pub open spec fn lines(s: Seq<char>) -> Seq<Seq<char>> {
    split_class(s, false, seq!['\n'])
}

/// `str::split_whitespace`: the non-empty runs of non-whitespace characters.
pub open spec fn words(s: Seq<char>) -> Seq<Seq<char>> {
    drop_empty(split_class(s, true, seq![]))
}

/// The non-empty pieces of `p`, in order.
pub open spec fn drop_empty(p: Seq<Seq<char>>) -> Seq<Seq<char>>
    decreases p.len(),
{
    if p.len() == 0 {
        p
    } else if p.last().len() > 0 {
        drop_empty(p.drop_last()).push(p.last())
    } else {
        drop_empty(p.drop_last())
    }
}

pub fn split_chars(s: &[char], ws: bool, set: &[char]) -> (r: Vec<Vec<char>>)
    ensures
        views(r@) == split_class(s@, ws, set@),
{
    let mut pieces: Vec<Vec<char>> = Vec::new();
    let mut cur: Vec<char> = Vec::new();
    let mut i: usize = 0;
    assert(s@.take(0) =~= Seq::<char>::empty());
    assert(views(pieces@).push(cur@) =~= seq![Seq::<char>::empty()]);
    while i < s.len()
        invariant
            i <= s.len(),
            views(pieces@).push(cur@) == split_class(s@.take(i as int), ws, set@),
        decreases s.len() - i,
    {
        let c = s[i];
        let ghost prev = split_class(s@.take(i as int), ws, set@);
        assert(s@.take(i + 1).drop_last() =~= s@.take(i as int));
        assert(s@.take(i + 1).last() == c);
        if is_in_class(c, ws, set) {
            let done = cur;
            pieces.push(done);
            cur = Vec::new();
            assert(views(pieces@).push(cur@) =~= prev.push(Seq::<char>::empty()));
        } else {
            cur.push(c);
            assert(views(pieces@).push(cur@) =~= prev.update(prev.len() - 1, prev.last().push(c)));
        }
        i = i + 1;
    }
    pieces.push(cur);
    assert(s@.take(s.len() as int) =~= s@);
    assert(views(pieces@) =~= split_class(s@, ws, set@));
    pieces
}

/// The lines of `s` (see `lines`).
pub fn lines_of(s: &[char]) -> (r: Vec<Vec<char>>)
    ensures
        views(r@) == lines(s@),
{
    let nl = ['\n'];
    assert(nl@ =~= seq!['\n']);
    split_chars(s, false, &nl)
}

/// The whitespace-separated words of `s`.
pub fn words_of(s: &[char]) -> (r: Vec<Vec<char>>)
    ensures
        views(r@) == words(s@),
{
    let none: [char; 0] = [];
    assert(none@ =~= Seq::<char>::empty());
    let pieces = split_chars(s, true, &none);
    let mut out: Vec<Vec<char>> = Vec::new();
    let mut i: usize = 0;
    while i < pieces.len()
        invariant
            i <= pieces.len(),
            views(pieces@) == split_class(s@, true, seq![]),
            views(out@) == drop_empty(views(pieces@).take(i as int)),
        decreases pieces.len() - i,
    {
        let ghost pv = views(pieces@);
        assert(pv.take(i + 1).drop_last() =~= pv.take(i as int));
        assert(pv.take(i + 1).last() == pieces@[i as int]@);
        if pieces[i].len() > 0 {
            let w = slice_of(&pieces[i], 0, pieces[i].len());
            assert(w@ =~= pieces@[i as int]@);
            out.push(w);
            assert(views(out@) =~= drop_empty(pv.take(i + 1)));
        } else {
            assert(views(out@) =~= drop_empty(pv.take(i + 1)));
        }
        i = i + 1;
    }
    assert(views(pieces@).take(pieces.len() as int) =~= views(pieces@));
    out
}

/// The trimmed pieces of `p` that are not blank, in order.
pub open spec fn trimmed_nonblank(p: Seq<Seq<char>>) -> Seq<Seq<char>> {
    drop_empty(p.map_values(|x: Seq<char>| trim(x)))
}

/// Every piece kept by `drop_empty` is non-empty.
pub proof fn lemma_drop_empty_nonempty(p: Seq<Seq<char>>)
    ensures
        forall|i: int| 0 <= i < drop_empty(p).len() ==> #[trigger] drop_empty(p)[i].len() > 0,
    decreases p.len(),
{
    if p.len() > 0 {
        lemma_drop_empty_nonempty(p.drop_last());
        let d = drop_empty(p.drop_last());
        assert forall|i: int| 0 <= i < drop_empty(p).len() implies #[trigger] drop_empty(p)[i].len()
            > 0 by {
            if i < d.len() {
                assert(drop_empty(p)[i] == d[i]);
            }
        }
    }
}

/// Every piece kept by `trimmed_nonblank` is a trimmed sequence.
pub proof fn lemma_drop_empty_trimmed(p: Seq<Seq<char>>)
    ensures
        forall|i: int|
            0 <= i < trimmed_nonblank(p).len() ==> trim(#[trigger] trimmed_nonblank(p)[i])
                == trimmed_nonblank(p)[i],
    decreases p.len(),
{
    let m = p.map_values(|x: Seq<char>| trim(x));
    if p.len() > 0 {
        lemma_drop_empty_trimmed(p.drop_last());
        assert(p.drop_last().map_values(|x: Seq<char>| trim(x)) =~= m.drop_last());
        lemma_trim_trimmed(p.last());
        let d = drop_empty(m.drop_last());
        assert(d == trimmed_nonblank(p.drop_last()));
        assert(m.last() == trim(p.last()));
        assert forall|i: int|
            0 <= i < trimmed_nonblank(p).len() implies trim(#[trigger] trimmed_nonblank(p)[i])
            == trimmed_nonblank(p)[i] by {
            if i < d.len() {
                assert(trimmed_nonblank(p)[i] == d[i]);
            } else {
                assert(trimmed_nonblank(p)[i] == m.last());
            }
        }
    }
}

pub fn trim_nonblank(pieces: &[Vec<char>]) -> (r: Vec<Vec<char>>)
    ensures
        views(r@) == trimmed_nonblank(views(pieces@)),
{
    let ghost tv = views(pieces@).map_values(|x: Seq<char>| trim(x));
    let mut out: Vec<Vec<char>> = Vec::new();
    let mut i: usize = 0;
    while i < pieces.len()
        invariant
            i <= pieces.len(),
            tv == views(pieces@).map_values(|x: Seq<char>| trim(x)),
            views(out@) == drop_empty(tv.take(i as int)),
        decreases pieces.len() - i,
    {
        let t = trim_chars(&pieces[i]);
        assert(t@ == tv[i as int]);
        assert(tv.take(i + 1).drop_last() =~= tv.take(i as int));
        assert(tv.take(i + 1).last() == t@);
        if t.len() > 0 {
            let ghost tw = t@;
            out.push(t);
            assert(views(out@) =~= drop_empty(tv.take(i as int)).push(tw));
        }
        i = i + 1;
    }
    assert(tv.take(pieces.len() as int) =~= tv);
    out
}

/// `pieces` joined with `sep` between consecutive pieces.
pub open spec fn join(pieces: Seq<Seq<char>>, sep: Seq<char>) -> Seq<char>
    decreases pieces.len(),
{
    if pieces.len() == 0 {
        Seq::<char>::empty()
    } else if pieces.len() == 1 {
        pieces[0]
    } else {
        join(pieces.drop_last(), sep) + sep + pieces.last()
    }
}

pub fn join_chars(pieces: &[Vec<char>], sep: &[char]) -> (r: Vec<char>)
    ensures
        r@ == join(views(pieces@), sep@),
{
    let mut out: Vec<char> = Vec::new();
    let mut i: usize = 0;
    while i < pieces.len()
        invariant
            i <= pieces.len(),
            out@ == join(views(pieces@).take(i as int), sep@),
        decreases pieces.len() - i,
    {
        let ghost pv = views(pieces@);
        assert(pv.take(i + 1).drop_last() =~= pv.take(i as int));
        assert(pv.take(i + 1).last() == pieces@[i as int]@);
        if i > 0 {
            push_all(&mut out, sep);
        } else {
            assert(pv.take(1) =~= seq![pieces@[0]@]);
        }
        push_all(&mut out, &pieces[i]);
        proof {
            if i == 0 {
                assert(out@ =~= pieces@[0]@);
            }
        }
        i = i + 1;
    }
    assert(views(pieces@).take(pieces.len() as int) =~= views(pieces@));
    out
}

/// `str::replace`: every occurrence of `pat`, scanning left to right
/// without overlap, replaced by `rep` (`s` itself for an empty pattern).
pub open spec fn replace_seq(s: Seq<char>, pat: Seq<char>, rep: Seq<char>) -> Seq<char>
    decreases s.len(),
{
    if pat.len() == 0 || s.len() == 0 {
        s
    } else if starts_with(s, pat) {
        rep + replace_seq(s.skip(pat.len() as int), pat, rep)
    } else {
        seq![s[0]] + replace_seq(s.drop_first(), pat, rep)
    }
}

pub fn replace_chars(s: &[char], pat: &[char], rep: &[char]) -> (r: Vec<char>)
    ensures
        r@ == replace_seq(s@, pat@, rep@),
{
    if pat.len() == 0 {
        return slice_of(s, 0, s.len());
    }
    let mut out: Vec<char> = Vec::new();
    let mut i: usize = 0;
    assert(s@.skip(0) =~= s@);
    while i < s.len()
        invariant
            i <= s.len(),
            pat@.len() > 0,
            replace_seq(s@, pat@, rep@) == out@ + replace_seq(s@.skip(i as int), pat@, rep@),
        decreases s.len() - i,
    {
        let ghost rest = s@.skip(i as int);
        if matches_at(s, pat, i) {
            proof {
                assert(rest.take(pat@.len() as int) =~= s@.subrange(i as int, i + pat@.len()));
                assert(rest.skip(pat@.len() as int) =~= s@.skip(i + pat@.len()));
            }
            push_all(&mut out, rep);
            i = i + pat.len();
        } else {
            proof {
                if pat@.len() <= rest.len() {
                    assert(rest.take(pat@.len() as int) =~= s@.subrange(i as int, i + pat@.len()));
                }
                assert(rest.drop_first() =~= s@.skip(i + 1));
                assert(rest[0] == s@[i as int]);
            }
            out.push(s[i]);
            i = i + 1;
        }
        assert(replace_seq(s@, pat@, rep@) =~= out@ + replace_seq(s@.skip(i as int), pat@, rep@));
    }
    assert(s@.skip(i as int) =~= Seq::<char>::empty());
    assert(out@ + Seq::<char>::empty() =~= out@);
    out
}

// ---------------------------------------------------------------------------
// Ordering and sorting
// ---------------------------------------------------------------------------

/// `a <= b` in the order of `str` (code point by code point).
pub open spec fn text_le(a: Seq<char>, b: Seq<char>) -> bool
    decreases a.len(),
{
    if a.len() == 0 {
        true
    } else if b.len() == 0 {
        false
    } else if a[0] != b[0] {
        a[0] < b[0]
    } else {
        text_le(a.drop_first(), b.drop_first())
    }
}

pub fn text_le_chars(a: &[char], b: &[char]) -> (r: bool)
    ensures
        r == text_le(a@, b@),
{
    let mut i: usize = 0;
    assert(a@.skip(0) =~= a@);
    assert(b@.skip(0) =~= b@);
    while i < a.len() && i < b.len() && a[i] == b[i]
        invariant
            i <= a.len(),
            i <= b.len(),
            text_le(a@, b@) == text_le(a@.skip(i as int), b@.skip(i as int)),
        decreases a.len() - i,
    {
        assert(a@.skip(i as int).drop_first() =~= a@.skip(i + 1));
        assert(b@.skip(i as int).drop_first() =~= b@.skip(i + 1));
        i = i + 1;
    }
    if i == a.len() {
        true
    } else if i == b.len() {
        false
    } else {
        a[i] < b[i]
    }
}

/// `x` inserted into `s` before the first element greater than it.
pub open spec fn insert_sorted(s: Seq<Seq<char>>, x: Seq<char>) -> Seq<Seq<char>>
    decreases s.len(),
{
    if s.len() == 0 {
        seq![x]
    } else if text_le(x, s[0]) {
        seq![x] + s
    } else {
        seq![s[0]] + insert_sorted(s.drop_first(), x)
    }
}

/// `s` in ascending order (insertion sort, which keeps equal elements).
pub open spec fn sort_texts(s: Seq<Seq<char>>) -> Seq<Seq<char>>
    decreases s.len(),
{
    if s.len() == 0 {
        s
    } else {
        insert_sorted(sort_texts(s.drop_last()), s.last())
    }
}

fn insert_sorted_vec(v: &mut Vec<Vec<char>>, x: Vec<char>)
    ensures
        views(final(v)@) == insert_sorted(views(old(v)@), x@),
{
    let ghost s0 = views(v@);
    let mut i: usize = 0;
    assert(s0.skip(0) =~= s0);
    assert(s0.take(0) + insert_sorted(s0, x@) =~= insert_sorted(s0, x@));
    while i < v.len() && !text_le_chars(&x, &v[i])
        invariant
            i <= v.len(),
            views(v@) == s0,
            insert_sorted(s0, x@) == s0.take(i as int) + insert_sorted(s0.skip(i as int), x@),
        decreases v.len() - i,
    {
        proof {
            assert(s0.skip(i as int)[0] == s0[i as int]);
            assert(s0.skip(i as int).drop_first() =~= s0.skip(i + 1));
            assert(s0.take(i + 1) =~= s0.take(i as int) + seq![s0[i as int]]);
        }
        i = i + 1;
    }
    let ghost xv = x@;
    v.insert(i, x);
    proof {
        if i < s0.len() {
            assert(s0.skip(i as int)[0] == s0[i as int]);
        }
        assert(views(v@) =~= s0.take(i as int) + (seq![xv] + s0.skip(i as int)));
        assert(s0 =~= s0.take(i as int) + s0.skip(i as int));
    }
}

/// The vectors of `v` in ascending order.
pub fn sorted_texts(v: &[Vec<char>]) -> (r: Vec<Vec<char>>)
    ensures
        views(r@) == sort_texts(views(v@)),
{
    let mut out: Vec<Vec<char>> = Vec::new();
    let mut i: usize = 0;
    while i < v.len()
        invariant
            i <= v.len(),
            views(out@) == sort_texts(views(v@).take(i as int)),
        decreases v.len() - i,
    {
        let x = slice_of(&v[i], 0, v[i].len());
        assert(x@ =~= v@[i as int]@);
        assert(views(v@).take(i + 1).drop_last() =~= views(v@).take(i as int));
        insert_sorted_vec(&mut out, x);
        i = i + 1;
    }
    assert(views(v@).take(v.len() as int) =~= views(v@));
    out
}

// ---------------------------------------------------------------------------
// Decimal numbers
// ---------------------------------------------------------------------------

pub open spec fn digit(d: nat) -> char {
    seq!['0', '1', '2', '3', '4', '5', '6', '7', '8', '9'][d as int]
}

/// Decimal digits of `n`, most significant first.
pub open spec fn nat_text(n: nat) -> Seq<char>
    decreases n,
{
    if n < 10 {
        seq![digit(n)]
    } else {
        nat_text(n / 10).push(digit(n % 10))
    }
}

/// `i64::to_string`: decimal, with a leading `-` for negative numbers.
pub open spec fn int_text(n: int) -> Seq<char> {
    if n < 0 {
        seq!['-'] + nat_text((-n) as nat)
    } else {
        nat_text(n as nat)
    }
}

fn push_u64_text(out: &mut Vec<char>, m: u64)
    ensures
        final(out)@ == old(out)@ + nat_text(m as nat),
    decreases m,
{
    let digits = ['0', '1', '2', '3', '4', '5', '6', '7', '8', '9'];
    if m >= 10 {
        push_u64_text(out, m / 10);
    }
    let d = (m % 10) as usize;
    assert(digits@ =~= seq!['0', '1', '2', '3', '4', '5', '6', '7', '8', '9']);
    out.push(digits[d]);
    assert(out@ =~= old(out)@ + nat_text(m as nat));
}

/// Appends the decimal text of `n` to `out`.
pub fn push_i64_text(out: &mut Vec<char>, n: i64)
    ensures
        final(out)@ == old(out)@ + int_text(n as int),
{
    if n < 0 {
        out.push('-');
        let m: u64 = if n == i64::MIN {
            9223372036854775808u64
        } else {
            (-n) as u64
        };
        push_u64_text(out, m);
        assert(out@ =~= old(out)@ + int_text(n as int));
    } else {
        push_u64_text(out, n as u64);
    }
}

pub fn i64_text(n: i64) -> (r: Vec<char>)
    ensures
        r@ == int_text(n as int),
{
    let mut out: Vec<char> = Vec::new();
    push_i64_text(&mut out, n);
    assert(out@ =~= int_text(n as int));
    out
}

pub open spec fn is_ascii_digit(c: char) -> bool {
    '0' <= c && c <= '9'
}

/// Value of a run of ASCII digits.
pub open spec fn digits_value(s: Seq<char>) -> int
    decreases s.len(),
{
    if s.len() == 0 {
        0
    } else {
        digits_value(s.drop_last()) * 10 + (s.last() as int - '0' as int)
    }
}

pub open spec fn all_ascii_digits(s: Seq<char>) -> bool {
    forall|i: int| 0 <= i < s.len() ==> is_ascii_digit(s[i])
}

/// The integer that `str::parse::<i64>` reads from `s`: an optional `+` or
/// `-`, then at least one ASCII digit, and nothing else; `None` when `s` has
/// another shape or the value lies outside `i64`.
pub open spec fn parse_i64(s: Seq<char>) -> Option<int> {
    let neg = s.len() > 0 && s[0] == '-';
    let signed = s.len() > 0 && (s[0] == '-' || s[0] == '+');
    let ds = if signed {
        s.drop_first()
    } else {
        s
    };
    let v = if neg {
        -digits_value(ds)
    } else {
        digits_value(ds)
    };
    if ds.len() > 0 && all_ascii_digits(ds) && i64::MIN <= v <= i64::MAX {
        Some(v)
    } else {
        None
    }
}

proof fn lemma_digits_value_nonneg(s: Seq<char>)
    requires
        all_ascii_digits(s),
    ensures
        digits_value(s) >= 0,
    decreases s.len(),
{
    if s.len() > 0 {
        lemma_digits_value_nonneg(s.drop_last());
    }
}

proof fn lemma_digits_value_mono(s: Seq<char>, k: int)
    requires
        all_ascii_digits(s),
        0 <= k <= s.len(),
    ensures
        digits_value(s.take(k)) <= digits_value(s),
    decreases s.len(),
{
    if k < s.len() {
        assert(s.drop_last().take(k) =~= s.take(k));
        lemma_digits_value_mono(s.drop_last(), k);
        lemma_digits_value_nonneg(s.drop_last());
        assert(digits_value(s.drop_last()) <= digits_value(s.drop_last()) * 10) by (nonlinear_arith)
            requires
                digits_value(s.drop_last()) >= 0,
        ;
    } else {
        assert(s.take(k) =~= s);
    }
}

/// `str::parse::<i64>`.
pub fn parse_i64_chars(s: &[char]) -> (r: Option<i64>)
    ensures
        match parse_i64(s@) {
            Some(v) => r == Some(v as i64),
            None => r is None,
        },
{
    let neg = s.len() > 0 && s[0] == '-';
    let signed = s.len() > 0 && (s[0] == '-' || s[0] == '+');
    let start: usize = if signed {
        1
    } else {
        0
    };
    let ghost ds = if signed {
        s@.drop_first()
    } else {
        s@
    };
    assert(ds =~= s@.skip(start as int));
    if start >= s.len() {
        return None;
    }
    let mut acc: i128 = 0;
    let mut i = start;
    while i < s.len()
        invariant
            start <= i <= s.len(),
            ds == s@.skip(start as int),
            ds == (if s@.len() > 0 && (s@[0] == '-' || s@[0] == '+') {
                s@.drop_first()
            } else {
                s@
            }),
            neg == (s@.len() > 0 && s@[0] == '-'),
            all_ascii_digits(ds.take(i - start)),
            acc == digits_value(ds.take(i - start)),
            0 <= acc <= 9223372036854775808i128,
        decreases s.len() - i,
    {
        let c = s[i];
        if !('0' <= c && c <= '9') {
            proof {
                assert(ds[i - start] == c);
                assert(!all_ascii_digits(ds));
            }
            return None;
        }
        let d = (c as u32 - '0' as u32) as i128;
        let next = acc * 10 + d;
        assert(ds.take(i + 1 - start).drop_last() =~= ds.take(i - start));
        assert(ds.take(i + 1 - start).last() == c);
        if next > 9223372036854775808i128 {
            proof {
                assert(all_ascii_digits(ds.take(i + 1 - start)));
                if all_ascii_digits(ds) {
                    lemma_digits_value_mono(ds, i + 1 - start);
                }
            }
            return None;
        }
        acc = next;
        i = i + 1;
    }
    assert(ds.take(s.len() - start) =~= ds);
    if neg {
        Some((-acc) as i64)
    } else if acc > 9223372036854775807i128 {
        None
    } else {
        Some(acc as i64)
    }
}

} // verus!
