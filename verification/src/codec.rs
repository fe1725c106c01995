//! What a draft's front matter gives back after it is written and read: the
//! same entries, in the same order.
use vstd::prelude::*;

use crate::draft_io::{
    dashes, draft_text, footer, front_from_lines, front_line, front_text_lines,
    parse_front_matter_spec, render_spec, split_front_matter_spec,
};
use crate::models::{parse_scalar_spec, yq_text, FrontSpec};
use crate::ordered::{entry_insert, key_index, lemma_key_index_from};
use crate::text::{
    contains_seq, find_from, in_class, is_ws, join, lines, occurs_at, split_class, starts_with,
    strip_end, strip_start, trim,
};

verus! {

// ---------------------------------------------------------------------------
// Joining and splitting lines
// ---------------------------------------------------------------------------

proof fn lemma_join_prefix(a: Seq<char>, l: Seq<Seq<char>>, sep: Seq<char>)
    requires
        l.len() > 0,
    ensures
        join(seq![a] + l, sep) == a + sep + join(l, sep),
    decreases l.len(),
{
    let s = seq![a] + l;
    assert(s.len() >= 2);
    assert(join(s, sep) == join(s.drop_last(), sep) + sep + s.last());
    if l.len() == 1 {
        assert(s.drop_last() =~= seq![a]);
        assert(s.last() == l[0]);
        assert(join(seq![a], sep) == a);
        assert(join(l, sep) == l[0]);
    } else {
        lemma_join_prefix(a, l.drop_last(), sep);
        assert(s.drop_last() =~= seq![a] + l.drop_last());
        assert(s.last() == l.last());
        assert(join(l, sep) == join(l.drop_last(), sep) + sep + l.last());
        assert(join(s, sep) =~= a + sep + join(l, sep));
    }
}

/// The lines between the opening and closing `---` of front matter, with
/// the line breaks around them.
pub open spec fn front_block(ls: Seq<Seq<char>>) -> Seq<char> {
    if ls.len() == 0 {
        seq!['\n']
    } else {
        seq!['\n'] + join(ls, seq!['\n']) + seq!['\n']
    }
}

proof fn lemma_render_shape(ls: Seq<Seq<char>>)
    ensures
        join(seq!["---"@] + ls + seq!["---"@, ""@], seq!['\n']) == dashes() + front_block(ls)
            + dashes() + seq!['\n'],
{
    reveal_strlit("---");
    reveal_strlit("");
    let nl = seq!['\n'];
    let m = ls + seq!["---"@, ""@];
    assert(seq!["---"@] + ls + seq!["---"@, ""@] =~= seq!["---"@] + m);
    lemma_join_prefix("---"@, m, nl);
    assert(m.drop_last() =~= ls.push("---"@));
    assert(m.last() == ""@);
    let p = ls.push("---"@);
    assert(m.len() >= 2);
    assert(join(m, nl) == join(m.drop_last(), nl) + nl + m.last());
    assert(""@ =~= Seq::<char>::empty());
    if ls.len() == 0 {
        assert(p =~= seq!["---"@]);
        assert(join(p, nl) == "---"@);
        assert(join(m, nl) =~= "---"@ + nl);
    } else {
        assert(p.drop_last() =~= ls);
        assert(join(p, nl) == join(ls, nl) + nl + "---"@);
        assert(join(m, nl) =~= join(ls, nl) + nl + "---"@ + nl);
    }
    assert(dashes() =~= "---"@);
}

proof fn lemma_split_no_break(y: Seq<char>)
    requires
        !y.contains('\n'),
    ensures
        split_class(y, false, seq!['\n']) == seq![y],
    decreases y.len(),
{
    if y.len() > 0 {
        assert(!y.drop_last().contains('\n')) by {
            if y.drop_last().contains('\n') {
                let i = choose|i: int| 0 <= i < y.drop_last().len() && y.drop_last()[i] == '\n';
                assert(y[i] == '\n');
            }
        }
        lemma_split_no_break(y.drop_last());
        assert(y.last() != '\n') by {
            if y.last() == '\n' {
                assert(y[y.len() - 1] == '\n');
            }
        }
        assert(!in_class(y.last(), false, seq!['\n']));
        assert(y.drop_last().push(y.last()) =~= y);
    } else {
        assert(y =~= Seq::<char>::empty());
    }
}

proof fn lemma_split_after_break(x: Seq<char>, y: Seq<char>)
    requires
        !y.contains('\n'),
    ensures
        split_class(x + seq!['\n'] + y, false, seq!['\n']) == split_class(x, false, seq!['\n']).push(
            y,
        ),
    decreases y.len(),
{
    let s = x + seq!['\n'] + y;
    if y.len() == 0 {
        assert(s.drop_last() =~= x);
        assert(s.last() == '\n');
        assert(in_class('\n', false, seq!['\n']));
        assert(y =~= Seq::<char>::empty());
    } else {
        assert(!y.drop_last().contains('\n')) by {
            if y.drop_last().contains('\n') {
                let i = choose|i: int| 0 <= i < y.drop_last().len() && y.drop_last()[i] == '\n';
                assert(y[i] == '\n');
            }
        }
        lemma_split_after_break(x, y.drop_last());
        assert(s.drop_last() =~= x + seq!['\n'] + y.drop_last());
        assert(s.last() == y.last());
        assert(y.last() != '\n') by {
            if y.last() == '\n' {
                assert(y[y.len() - 1] == '\n');
            }
        }
        assert(!in_class(y.last(), false, seq!['\n']));
        assert(y.drop_last().push(y.last()) =~= y);
    }
}

/// Lines joined with line breaks split back into the same lines.
proof fn lemma_lines_of_join(ls: Seq<Seq<char>>)
    requires
        ls.len() > 0,
        forall|i: int| 0 <= i < ls.len() ==> !(#[trigger] ls[i]).contains('\n'),
    ensures
        lines(join(ls, seq!['\n'])) == ls,
    decreases ls.len(),
{
    if ls.len() == 1 {
        lemma_split_no_break(ls[0]);
        assert(seq![ls[0]] =~= ls);
    } else {
        let d = ls.drop_last();
        assert forall|i: int| 0 <= i < d.len() implies !(#[trigger] d[i]).contains('\n') by {
            assert(d[i] == ls[i]);
        }
        lemma_lines_of_join(d);
        assert(!ls.last().contains('\n')) by {
            assert(ls.last() == ls[ls.len() - 1]);
        }
        lemma_split_after_break(join(d, seq!['\n']), ls.last());
        assert(d.push(ls.last()) =~= ls);
    }
}

// ---------------------------------------------------------------------------
// Where the front matter ends
// ---------------------------------------------------------------------------

proof fn lemma_concat_no_dashes(x: Seq<char>, y: Seq<char>)
    requires
        !contains_seq(x, dashes()),
        !contains_seq(y, dashes()),
        (x.len() > 0 && x.last() != '-') || (y.len() > 0 && y[0] != '-'),
    ensures
        !contains_seq(x + y, dashes()),
{
    let s = x + y;
    let d = dashes();
    assert forall|i: int| !occurs_at(s, d, i) by {
        if occurs_at(s, d, i) {
            let w = s.subrange(i, i + 3);
            assert(w == d);
            if i + 3 <= x.len() {
                assert(x.subrange(i, i + 3) =~= w);
                assert(occurs_at(x, d, i));
            } else if i >= x.len() {
                assert(y.subrange(i - x.len(), i - x.len() + 3) =~= w);
                assert(occurs_at(y, d, i - x.len()));
            } else {
                if x.len() > 0 && x.last() != '-' {
                    assert(w[x.len() - 1 - i] == s[x.len() - 1]);
                    assert(s[x.len() - 1] == x.last());
                } else {
                    assert(w[x.len() - i] == s[x.len() as int]);
                    assert(s[x.len() as int] == y[0]);
                }
            }
        }
    }
}

proof fn lemma_block_no_dashes(ls: Seq<Seq<char>>)
    requires
        forall|i: int| 0 <= i < ls.len() ==> !contains_seq(#[trigger] ls[i], dashes()),
    ensures
        !contains_seq(front_block(ls), dashes()),
        front_block(ls).len() > 0,
        front_block(ls).last() == '\n',
    decreases ls.len(),
{
    let nl = seq!['\n'];
    assert(!contains_seq(nl, dashes())) by {
        assert forall|i: int| !occurs_at(nl, dashes(), i) by {}
    }
    if ls.len() == 1 {
        assert(join(ls, nl) == ls[0]);
        lemma_concat_no_dashes(nl, ls[0]);
        lemma_concat_no_dashes(nl + ls[0], nl);
    } else if ls.len() > 1 {
        let d = ls.drop_last();
        assert forall|i: int| 0 <= i < d.len() implies !contains_seq(#[trigger] d[i], dashes()) by {
            assert(d[i] == ls[i]);
        }
        lemma_block_no_dashes(d);
        assert(join(ls, nl) == join(d, nl) + nl + ls.last());
        assert(front_block(ls) =~= front_block(d) + (ls.last() + nl));
        assert(!contains_seq(ls.last(), dashes())) by {
            assert(ls.last() == ls[ls.len() - 1]);
        }
        lemma_concat_no_dashes(ls.last(), nl);
        lemma_concat_no_dashes(front_block(d), ls.last() + nl);
    }
}

proof fn lemma_first_dashes(b: Seq<char>, t: Seq<char>, i: int)
    requires
        !contains_seq(b, dashes()),
        b.len() > 0,
        b.last() == '\n',
        0 <= i <= b.len(),
    ensures
        find_from(b + dashes() + t, dashes(), i) == Some(b.len() as int),
    decreases b.len() - i,
{
    let s = b + dashes() + t;
    let d = dashes();
    if i == b.len() {
        assert(s.subrange(i, i + 3) =~= d);
    } else {
        assert(!occurs_at(s, d, i)) by {
            if occurs_at(s, d, i) {
                let w = s.subrange(i, i + 3);
                if i + 3 <= b.len() {
                    assert(b.subrange(i, i + 3) =~= w);
                    assert(occurs_at(b, d, i));
                } else {
                    assert(w[b.len() - 1 - i] == s[b.len() - 1]);
                    assert(s[b.len() - 1] == b.last());
                }
            }
        }
        lemma_first_dashes(b, t, i + 1);
    }
}


// ---------------------------------------------------------------------------
// Trimming
// ---------------------------------------------------------------------------

proof fn lemma_strip_len(s: Seq<char>, ws: bool, set: Seq<char>)
    ensures
        strip_start(s, ws, set).len() <= s.len(),
        strip_end(s, ws, set).len() <= s.len(),
    decreases s.len(),
{
    if s.len() > 0 {
        lemma_strip_len(s.drop_first(), ws, set);
        lemma_strip_len(s.drop_last(), ws, set);
    }
}

/// A trimmed non-empty text neither begins nor ends with whitespace.
proof fn lemma_trimmed_edges(k: Seq<char>)
    requires
        k.len() > 0,
        trim(k) == k,
    ensures
        !is_ws(k[0]),
        !is_ws(k.last()),
{
    let e: Seq<char> = seq![];
    if is_ws(k[0]) {
        lemma_strip_len(k.drop_first(), true, e);
        lemma_strip_len(strip_start(k, true, e), true, e);
        assert(in_class(k[0], true, e));
        assert(strip_start(k, true, e) == strip_start(k.drop_first(), true, e));
    }
    let st = strip_start(k, true, e);
    lemma_strip_len(k, true, e);
    if is_ws(k.last()) {
        if st.len() == k.len() {
            assert(st == k) by {
                if st != k {
                    assert(strip_start(k, true, e) != k);
                    assert(in_class(k[0], true, e));
                    lemma_strip_len(k.drop_first(), true, e);
                }
            }
            assert(in_class(st.last(), true, e));
            lemma_strip_len(st.drop_last(), true, e);
        } else {
            lemma_strip_len(st, true, e);
        }
    }
}

proof fn lemma_trim_edges(t: Seq<char>)
    requires
        t.len() > 0,
        !is_ws(t[0]),
        !is_ws(t.last()),
    ensures
        trim(t) == t,
        strip_start(t, true, seq![]) == t,
{
    let e: Seq<char> = seq![];
    assert(!in_class(t[0], true, e));
    assert(!in_class(t.last(), true, e));
}

/// `join(ls, sep)` begins with the first piece and ends with the last.
proof fn lemma_join_edges(ls: Seq<Seq<char>>, sep: Seq<char>)
    requires
        ls.len() > 0,
    ensures
        join(ls, sep).len() >= ls[0].len(),
        join(ls, sep).len() >= ls.last().len(),
        join(ls, sep).take(ls[0].len() as int) == ls[0],
        join(ls, sep).skip(join(ls, sep).len() - ls.last().len()) == ls.last(),
    decreases ls.len(),
{
    if ls.len() > 1 {
        let d = ls.drop_last();
        lemma_join_edges(d, sep);
        let j = join(ls, sep);
        assert(j == join(d, sep) + sep + ls.last());
        assert(d[0] == ls[0]);
        assert(j.take(ls[0].len() as int) =~= join(d, sep).take(ls[0].len() as int));
        assert(j.skip(j.len() - ls.last().len()) =~= ls.last());
    }
}

proof fn lemma_block_trim(ls: Seq<Seq<char>>)
    requires
        forall|i: int| 0 <= i < ls.len() ==> (#[trigger] ls[i]).len() > 0,
        ls.len() > 0 ==> !is_ws(ls[0][0]) && !is_ws(ls.last().last()),
    ensures
        trim(front_block(ls)) == (if ls.len() == 0 {
            Seq::<char>::empty()
        } else {
            join(ls, seq!['\n'])
        }),
{
    let e: Seq<char> = seq![];
    let nl = seq!['\n'];
    if ls.len() == 0 {
        assert(in_class('\n', true, e));
        assert(seq!['\n'].drop_first() =~= Seq::<char>::empty());
        assert(strip_start(seq!['\n'], true, e) == strip_start(Seq::<char>::empty(), true, e));
    } else {
        let j = join(ls, nl);
        lemma_join_edges(ls, nl);
        assert(ls[0].len() > 0);
        assert(ls.last().len() > 0) by {
            assert(ls.last() == ls[ls.len() - 1]);
        }
        assert(j[0] == ls[0][0]) by {
            assert(j.take(ls[0].len() as int)[0] == j[0]);
        }
        assert(j.last() == ls.last().last()) by {
            let k = j.len() - ls.last().len();
            assert(j.skip(k)[ls.last().len() - 1] == j[j.len() - 1]);
        }
        let b = front_block(ls);
        assert(in_class('\n', true, e));
        assert(b.drop_first() =~= j + nl);
        assert(strip_start(b, true, e) == strip_start(j + nl, true, e));
        assert((j + nl)[0] == j[0]);
        assert(!in_class(j[0], true, e));
        assert(strip_start(j + nl, true, e) == j + nl);
        assert((j + nl).drop_last() =~= j);
        assert(strip_end(j + nl, true, e) == strip_end(j, true, e));
        assert(!in_class(j.last(), true, e));
    }
}


// ---------------------------------------------------------------------------
// Lines of front matter
// ---------------------------------------------------------------------------

/// A key that survives writing and reading: not empty, without surrounding
/// whitespace, and without `:`, a line break or `---`.
pub open spec fn plain_key(k: Seq<char>) -> bool {
    &&& k.len() > 0
    &&& trim(k) == k
    &&& !k.contains(':')
    &&& !k.contains('\n')
    &&& !contains_seq(k, dashes())
}

/// A value that survives writing and reading: its written text has no line
/// break and no `---`, and reads back as the value.
pub open spec fn plain_value(v: FrontSpec) -> bool {
    &&& !yq_text(v).contains('\n')
    &&& !contains_seq(yq_text(v), dashes())
    &&& parse_scalar_spec(yq_text(v)) == v
}

/// The written line of an entry.
pub open spec fn entry_line(k: Seq<char>, v: FrontSpec) -> Seq<char> {
    k + ": "@ + yq_text(v)
}

proof fn lemma_first_colon(k: Seq<char>, rest: Seq<char>, i: int)
    requires
        !k.contains(':'),
        0 <= i <= k.len(),
    ensures
        find_from(k + seq![':'] + rest, seq![':'], i) == Some(k.len() as int),
    decreases k.len() - i,
{
    let s = k + seq![':'] + rest;
    let c = seq![':'];
    if i == k.len() {
        assert(s.subrange(i, i + 1) =~= c);
    } else {
        assert(!occurs_at(s, c, i)) by {
            if occurs_at(s, c, i) {
                assert(s.subrange(i, i + 1)[0] == s[i]);
                assert(s[i] == k[i]);
            }
        }
        lemma_first_colon(k, rest, i + 1);
    }
}

/// The texts of the three named scalars.
proof fn lemma_words()
    ensures
        "null"@ =~= seq!['n', 'u', 'l', 'l'],
        "true"@ =~= seq!['t', 'r', 'u', 'e'],
        "false"@ =~= seq!['f', 'a', 'l', 's', 'e'],
{
    reveal_strlit("null");
    reveal_strlit("true");
    reveal_strlit("false");
}

pub open spec fn digit_char(c: char) -> bool {
    '0' <= c && c <= '9'
}

proof fn lemma_digit(d: nat)
    requires
        d < 10,
    ensures
        digit_char(crate::text::digit(d)),
        crate::text::digit(d) as int == '0' as int + d,
{
    let t = seq!['0', '1', '2', '3', '4', '5', '6', '7', '8', '9'];
    assert(crate::text::digit(d) == t[d as int]);
    if d == 0 {
        assert(t[0] == '0');
    } else if d == 1 {
        assert(t[1] == '1');
    } else if d == 2 {
        assert(t[2] == '2');
    } else if d == 3 {
        assert(t[3] == '3');
    } else if d == 4 {
        assert(t[4] == '4');
    } else if d == 5 {
        assert(t[5] == '5');
    } else if d == 6 {
        assert(t[6] == '6');
    } else if d == 7 {
        assert(t[7] == '7');
    } else if d == 8 {
        assert(t[8] == '8');
    } else {
        assert(t[9] == '9');
    }
}

/// The decimal text of a number: digits only, and they read back as it.
proof fn lemma_nat_text(m: nat)
    ensures
        crate::text::nat_text(m).len() > 0,
        crate::text::all_ascii_digits(crate::text::nat_text(m)),
        crate::text::digits_value(crate::text::nat_text(m)) == m,
        digit_char(crate::text::nat_text(m)[0]),
        digit_char(crate::text::nat_text(m).last()),
    decreases m,
{
    let t = crate::text::nat_text(m);
    assert(crate::text::digits_value(t) == crate::text::digits_value(t.drop_last()) * 10 + (
    t.last() as int - '0' as int));
    if m < 10 {
        lemma_digit(m);
        assert(t == seq![crate::text::digit(m)]);
        assert(t.drop_last() =~= Seq::<char>::empty());
        assert(crate::text::digits_value(t.drop_last()) == 0);
    } else {
        lemma_nat_text(m / 10);
        lemma_digit(m % 10);
        let p = crate::text::nat_text(m / 10);
        assert(t == p.push(crate::text::digit(m % 10)));
        assert(t.drop_last() =~= p);
        assert(t.last() == crate::text::digit(m % 10));
        assert(m == (m / 10) * 10 + m % 10);
        assert(t[0] == p[0]);
        assert forall|i: int| 0 <= i < t.len() implies crate::text::is_ascii_digit(#[trigger] t[i]) by {
            if i < p.len() {
                assert(t[i] == p[i]);
            }
        }
    }
}

/// The decimal text of an `i64` parses back to it.
proof fn lemma_int_text_parses(n: int)
    requires
        i64::MIN <= n <= i64::MAX,
    ensures
        crate::text::parse_i64(crate::text::int_text(n)) == Some(n),
        crate::text::int_text(n).len() > 0,
        !is_ws(crate::text::int_text(n)[0]),
        !is_ws(crate::text::int_text(n).last()),
        crate::text::int_text(n)[0] == '-' || digit_char(crate::text::int_text(n)[0]),
{
    let t = crate::text::int_text(n);
    if n < 0 {
        let m = (-n) as nat;
        lemma_nat_text(m);
        let nt = crate::text::nat_text(m);
        assert(t == seq!['-'] + nt);
        assert(t.drop_first() =~= nt);
        assert(t.last() == nt.last());
    } else {
        lemma_nat_text(n as nat);
    }
}

/// How a written entry line reads back.
proof fn lemma_entry_line(k: Seq<char>, v: FrontSpec)
    requires
        plain_key(k),
        plain_value(v),
        yq_text(v).len() > 0,
        !is_ws(yq_text(v)[0]),
        !is_ws(yq_text(v).last()),
    ensures
        front_line(entry_line(k, v)) == Some((k, v)),
        entry_line(k, v).len() > 0,
        !is_ws(entry_line(k, v)[0]),
        !is_ws(entry_line(k, v).last()),
        !entry_line(k, v).contains('\n'),
        !contains_seq(entry_line(k, v), dashes()),
{
    reveal_strlit(": ");
    let t = yq_text(v);
    let line = entry_line(k, v);
    let rest = seq![' '] + t;
    assert(line =~= k + seq![':'] + rest);
    lemma_first_colon(k, rest, 0);
    assert(line.take(k.len() as int) =~= k);
    assert(line.skip(k.len() as int + 1) =~= rest);
    let e: Seq<char> = seq![];
    assert(in_class(' ', true, e));
    assert(rest.drop_first() =~= t);
    assert(strip_start(rest, true, e) == strip_start(t, true, e));
    lemma_trim_edges(t);
    lemma_trimmed_edges(k);
    assert(line[0] == k[0]);
    assert(line.last() == t.last());
    lemma_entry_line_no_break(k, t);
    lemma_entry_line_no_dashes(k, t);
}

proof fn lemma_entry_line_no_break(k: Seq<char>, t: Seq<char>)
    requires
        !k.contains('\n'),
        !t.contains('\n'),
    ensures
        !(k + ": "@ + t).contains('\n'),
{
    reveal_strlit(": ");
    let line = k + ": "@ + t;
    if line.contains('\n') {
        let i = choose|i: int| 0 <= i < line.len() && line[i] == '\n';
        if i < k.len() {
            assert(k[i] == '\n');
        } else if i >= k.len() + 2 {
            assert(t[i - k.len() - 2] == '\n');
        } else {
            assert(line[i] == ':' || line[i] == ' ');
        }
    }
}

proof fn lemma_entry_line_no_dashes(k: Seq<char>, t: Seq<char>)
    requires
        !contains_seq(k, dashes()),
        !contains_seq(t, dashes()),
    ensures
        !contains_seq(k + ": "@ + t, dashes()),
{
    reveal_strlit(": ");
    let sep = seq![':', ' '];
    assert(": "@ =~= sep);
    assert(!contains_seq(sep, dashes())) by {
        assert forall|i: int| !occurs_at(sep, dashes(), i) by {}
    }
    lemma_concat_no_dashes(k, sep);
    lemma_concat_no_dashes(k + sep, t);
}


// ---------------------------------------------------------------------------
// Values
// ---------------------------------------------------------------------------

pub open spec fn escaped(s: Seq<char>) -> Seq<char> {
    crate::text::replace_seq(s, seq!['"'], seq!['\\', '"'])
}

pub open spec fn unescaped(s: Seq<char>) -> Seq<char> {
    crate::text::replace_seq(s, seq!['\\', '"'], seq!['"'])
}

proof fn lemma_escaped_head(s: Seq<char>)
    ensures
        escaped(s).len() > 0 ==> escaped(s)[0] != '"',
        s.len() == 0 ==> escaped(s).len() == 0,
{
    if s.len() > 0 {
        if starts_with(s, seq!['"']) {
            assert(escaped(s) == seq!['\\', '"'] + escaped(s.skip(1)));
        } else {
            assert(escaped(s) == seq![s[0]] + escaped(s.drop_first()));
            assert(s.subrange(0, 1) =~= seq![s[0]]);
        }
    }
}

/// Unescaping undoes escaping.
proof fn lemma_unescape_escape(s: Seq<char>)
    ensures
        unescaped(escaped(s)) == s,
    decreases s.len(),
{
    let q = seq!['"'];
    let bq = seq!['\\', '"'];
    if s.len() > 0 {
        let t = s.drop_first();
        lemma_unescape_escape(t);
        lemma_escaped_head(t);
        assert(s.skip(1) =~= t);
        if s[0] == '"' {
            assert(s.subrange(0, 1) =~= q);
            assert(escaped(s) == bq + escaped(t));
            let e = escaped(s);
            assert(e.subrange(0, 2) =~= bq);
            assert(e.skip(2) =~= escaped(t));
            assert(unescaped(e) == q + unescaped(escaped(t)));
            assert(q + t =~= s);
        } else {
            assert(!starts_with(s, q)) by {
                assert(s.subrange(0, 1)[0] == s[0]);
            }
            assert(escaped(s) == seq![s[0]] + escaped(t));
            let e = escaped(s);
            assert(!starts_with(e, bq)) by {
                if starts_with(e, bq) {
                    if s[0] != '\\' {
                        assert(e.subrange(0, 2)[0] == e[0]);
                    } else {
                        assert(e.subrange(0, 2)[1] == e[1]);
                        assert(e[1] == escaped(t)[0]);
                    }
                }
            }
            assert(e.drop_first() =~= escaped(t));
            assert(unescaped(e) == seq![e[0]] + unescaped(escaped(t)));
            assert(seq![s[0]] + t =~= s);
        }
    } else {
        assert(escaped(s) == s);
    }
}

/// A quoted string reads back as the string, when its text is not taken
/// for an integer.
pub proof fn lemma_string_reads_back(s: Seq<char>)
    requires
        !crate::pattern::is_match(crate::models::INT_SCALAR@, crate::models::quoted(s)),
    ensures
        parse_scalar_spec(crate::models::quoted(s)) == FrontSpec::Str(s),
{
    lemma_words();
    let t = crate::models::quoted(s);
    assert(t =~= seq!['"'] + escaped(s) + seq!['"']);
    assert(t[0] == '"');
    assert(t != "true"@);
    assert(t != "false"@);
    assert(t != "null"@);
    assert(t.subrange(0, 1) =~= seq!['"']);
    assert(t.subrange(t.len() - 1, t.len() as int) =~= seq!['"']);
    assert(t.subrange(1, t.len() - 1) =~= escaped(s));
    lemma_unescape_escape(s);
}

/// An integer's text reads back as the integer, when the integer pattern
/// takes it for one.
pub proof fn lemma_int_reads_back(n: int)
    requires
        i64::MIN <= n <= i64::MAX,
        crate::pattern::is_match(crate::models::INT_SCALAR@, crate::text::int_text(n)),
    ensures
        parse_scalar_spec(crate::text::int_text(n)) == FrontSpec::Int(n),
{
    lemma_words();
    lemma_int_text_parses(n);
    let t = crate::text::int_text(n);
    assert(t[0] != 't' && t[0] != 'f' && t[0] != 'n');
    assert(t != "true"@) by {
        if t == "true"@ {
            assert(t[0] == 't');
        }
    }
    assert(t != "false"@) by {
        if t == "false"@ {
            assert(t[0] == 'f');
        }
    }
    assert(t != "null"@) by {
        if t == "null"@ {
            assert(t[0] == 'n');
        }
    }
}

/// `null`, `true` and `false` read back as themselves.
pub proof fn lemma_named_reads_back(v: FrontSpec)
    requires
        v is Null || v is Bool,
    ensures
        parse_scalar_spec(yq_text(v)) == v,
        plain_value(v),
{
    lemma_words();
    assert("null"@ != "true"@) by {
        assert("null"@[0] != "true"@[0]);
    }
    assert("null"@ != "false"@);
    assert("false"@ != "true"@);
    let t = yq_text(v);
    assert(!t.contains('\n'));
    assert forall|i: int| !occurs_at(t, dashes(), i) by {
        if occurs_at(t, dashes(), i) {
            assert(t.subrange(i, i + 3)[0] == t[i]);
        }
    }
}

/// The written text of a value neither begins nor ends with whitespace.
proof fn lemma_yq_edges(v: FrontSpec)
    requires
        v is Int ==> i64::MIN <= v->Int_0 <= i64::MAX,
    ensures
        yq_text(v).len() > 0,
        !is_ws(yq_text(v)[0]),
        !is_ws(yq_text(v).last()),
{
    lemma_words();
    match v {
        FrontSpec::Int(n) => {
            lemma_int_text_parses(n);
        },
        FrontSpec::Str(s) => {
            let t = crate::models::quoted(s);
            assert(t =~= seq!['"'] + escaped(s) + seq!['"']);
        },
        _ => {},
    }
}


// ---------------------------------------------------------------------------
// The round trip
// ---------------------------------------------------------------------------

/// Entries that survive writing and reading: plain keys, each once, and
/// plain values, integers within `i64`.
pub open spec fn plain_entries(e: Seq<(Seq<char>, FrontSpec)>) -> bool {
    &&& forall|i: int| 0 <= i < e.len() ==> plain_key(#[trigger] e[i].0) && plain_value(e[i].1)
    &&& forall|i: int|
        0 <= i < e.len() && (#[trigger] e[i].1) is Int ==> i64::MIN <= e[i].1->Int_0 <= i64::MAX
    &&& forall|i: int, j: int| 0 <= i < j < e.len() ==> e[i].0 != e[j].0
}

proof fn lemma_lines_read_back(e: Seq<(Seq<char>, FrontSpec)>, n: int)
    requires
        plain_entries(e),
        0 <= n <= e.len(),
    ensures
        front_from_lines(front_text_lines(e).take(n)) == e.take(n),
    decreases n,
{
    let ls = front_text_lines(e);
    if n == 0 {
        assert(ls.take(0) =~= Seq::<Seq<char>>::empty());
        assert(e.take(0) =~= Seq::<(Seq<char>, FrontSpec)>::empty());
    } else {
        lemma_lines_read_back(e, n - 1);
        let k = e[n - 1].0;
        let v = e[n - 1].1;
        assert(plain_key(k) && plain_value(v));
        lemma_yq_edges(v);
        assert(ls[n - 1] == entry_line(k, v));
        lemma_entry_line(k, v);
        assert(ls.take(n).drop_last() =~= ls.take(n - 1));
        assert(ls.take(n).last() == ls[n - 1]);
        let prev = e.take(n - 1);
        lemma_key_index_from(prev, k, 0);
        assert(key_index(prev, k) is None) by {
            if key_index(prev, k) is Some {
                let j = key_index(prev, k)->Some_0;
                assert(prev[j].0 == k);
                assert(e[j].0 == e[n - 1].0);
            }
        }
        assert(entry_insert(prev, k, v) == prev.push((k, v)));
        assert(prev.push((k, v)) =~= e.take(n));
    }
}

proof fn lemma_lines_shape(e: Seq<(Seq<char>, FrontSpec)>)
    requires
        plain_entries(e),
    ensures
        forall|i: int| 0 <= i < front_text_lines(e).len() ==> {
            &&& (#[trigger] front_text_lines(e)[i]).len() > 0
            &&& !is_ws(front_text_lines(e)[i][0])
            &&& !is_ws(front_text_lines(e)[i].last())
            &&& !front_text_lines(e)[i].contains('\n')
            &&& !contains_seq(front_text_lines(e)[i], dashes())
        },
{
    let ls = front_text_lines(e);
    assert forall|i: int| 0 <= i < ls.len() implies {
        &&& (#[trigger] ls[i]).len() > 0
        &&& !is_ws(ls[i][0])
        &&& !is_ws(ls[i].last())
        &&& !ls[i].contains('\n')
        &&& !contains_seq(ls[i], dashes())
    } by {
        let k = e[i].0;
        let v = e[i].1;
        assert(plain_key(k) && plain_value(v));
        lemma_yq_edges(v);
        lemma_entry_line(k, v);
        assert(ls[i] == entry_line(k, v));
    }
}

proof fn lemma_split_draft(e: Seq<(Seq<char>, FrontSpec)>, x: Seq<char>)
    requires
        plain_entries(e),
    ensures
        split_front_matter_spec(render_spec(e) + x) == Some(
            (front_block(front_text_lines(e)), seq!['\n'] + x),
        ),
{
    let nl = seq!['\n'];
    let ls = front_text_lines(e);
    lemma_lines_shape(e);
    lemma_render_shape(ls);
    let b = front_block(ls);
    let text = render_spec(e) + x;
    assert(render_spec(e) == dashes() + b + dashes() + nl);
    assert(text =~= dashes() + b + dashes() + (nl + x));
    assert(text.subrange(0, 3) =~= dashes());
    let rest = text.skip(3);
    assert(rest =~= b + dashes() + (nl + x));
    lemma_block_no_dashes(ls);
    lemma_first_dashes(b, nl + x, 0);
    assert(rest.take(b.len() as int) =~= b);
    assert(rest.skip(b.len() as int + 3) =~= nl + x);
}

proof fn lemma_front_of_block(e: Seq<(Seq<char>, FrontSpec)>)
    requires
        plain_entries(e),
    ensures
        front_from_lines(lines(trim(front_block(front_text_lines(e))))) == e,
{
    let ls = front_text_lines(e);
    let b = front_block(ls);
    lemma_lines_shape(e);
    if ls.len() > 0 {
        assert(ls[0].len() > 0 && !is_ws(ls[0][0]));
        assert(ls.last() == ls[ls.len() - 1]);
    }
    lemma_block_trim(ls);
    if ls.len() == 0 {
        assert(e.len() == 0);
        assert(trim(b) == Seq::<char>::empty());
        let one = lines(Seq::<char>::empty());
        assert(one == seq![Seq::<char>::empty()]);
        assert(one.drop_last() =~= Seq::<Seq<char>>::empty());
        assert(find_from(Seq::<char>::empty(), seq![':'], 1) is None);
        assert(!occurs_at(Seq::<char>::empty(), seq![':'], 0));
        assert(front_line(one.last()) is None);
        assert(front_from_lines(one) == front_from_lines(one.drop_last()));
        assert(front_from_lines(one) =~= Seq::<(Seq<char>, FrontSpec)>::empty());
        assert(e =~= Seq::<(Seq<char>, FrontSpec)>::empty());
    } else {
        assert(trim(b) == join(ls, seq!['\n']));
        lemma_lines_of_join(ls);
        lemma_lines_read_back(e, e.len() as int);
        assert(ls.take(ls.len() as int) =~= ls);
        assert(e.take(e.len() as int) =~= e);
        assert(lines(trim(b)) == ls);
        assert(front_from_lines(ls) == e);
    }
}

/// Writing a draft and reading it back gives the same front-matter entries
/// in the same order, and the body as written with its disclaimer footer,
/// less the line breaks that open it. `draft_text` is the text that
/// `draft_content` writes and `parse_front_matter_spec` is what
/// `parse_front_matter` reads, so this is the round trip of those two.
pub proof fn law_front_matter_round_trip(
    e: Seq<(Seq<char>, FrontSpec)>,
    body: Seq<char>,
    disclaimer: Option<Seq<char>>,
)
    requires
        plain_entries(e),
    ensures
        parse_front_matter_spec(draft_text(e, body, disclaimer)).0 == e,
        parse_front_matter_spec(draft_text(e, body, disclaimer)).1 == strip_start(
            crate::text::trim_end(body) + footer(disclaimer),
            false,
            seq!['\n'],
        ),
{
    let nl = seq!['\n'];
    let x = crate::text::trim_end(body) + footer(disclaimer);
    assert(draft_text(e, body, disclaimer) =~= render_spec(e) + x);
    lemma_split_draft(e, x);
    lemma_front_of_block(e);
    let cls = seq!['\n'];
    assert(in_class('\n', false, cls));
    assert((nl + x).drop_first() =~= x);
    assert(strip_start(nl + x, false, cls) == strip_start(x, false, cls));
}

} // verus!
