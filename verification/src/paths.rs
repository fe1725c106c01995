//! Unix paths held as text: absoluteness, joining, components and prefixes,
//! as `std::path` treats them.
use vstd::prelude::*;

use crate::text::{join, join_chars, push_all, seq_eq, slice_of, split_chars, split_class, str_chars, string_of, views};

verus! {

/// `Path::is_absolute` on Unix.
pub open spec fn is_absolute(p: Seq<char>) -> bool {
    p.len() > 0 && p[0] == '/'
}

/// `PathBuf::join` on Unix: an absolute `p` replaces `base`; otherwise a `/`
/// goes between them unless `base` is empty or already ends with one.
pub open spec fn join_path(base: Seq<char>, p: Seq<char>) -> Seq<char> {
    if is_absolute(p) {
        p
    } else if base.len() == 0 || base.last() == '/' {
        base + p
    } else {
        base + seq!['/'] + p
    }
}

pub fn join_path_chars(base: &[char], p: &[char]) -> (r: Vec<char>)
    ensures
        r@ == join_path(base@, p@),
{
    if p.len() > 0 && p[0] == '/' {
        return slice_of(p, 0, p.len());
    }
    let mut out = slice_of(base, 0, base.len());
    if base.len() > 0 && base[base.len() - 1] != '/' {
        out.push('/');
    }
    push_all(&mut out, p);
    out
}

/// Whether the `i`-th piece between slashes is a component: pieces are
/// dropped when empty, and `.` is dropped except as the first piece of a
/// relative path.
pub open spec fn keeps_piece(piece: Seq<char>, i: int, relative: bool) -> bool {
    piece.len() > 0 && (piece != seq!['.'] || (i == 0 && relative))
}

pub open spec fn kept_pieces(pieces: Seq<Seq<char>>, relative: bool) -> Seq<Seq<char>>
    decreases pieces.len(),
{
    if pieces.len() == 0 {
        pieces
    } else if keeps_piece(pieces.last(), pieces.len() - 1, relative) {
        kept_pieces(pieces.drop_last(), relative).push(pieces.last())
    } else {
        kept_pieces(pieces.drop_last(), relative)
    }
}

/// `Path::components`, each as text; the root is the component `/`.
pub open spec fn components(p: Seq<char>) -> Seq<Seq<char>> {
    let rest = kept_pieces(split_class(p, false, seq!['/']), !is_absolute(p));
    if is_absolute(p) {
        seq![seq!['/']] + rest
    } else {
        rest
    }
}

/// The text of a path made of these components.
pub open spec fn components_text(c: Seq<Seq<char>>) -> Seq<char> {
    if c.len() > 0 && c[0] == seq!['/'] {
        seq!['/'] + join(c.drop_first(), seq!['/'])
    } else {
        join(c, seq!['/'])
    }
}

/// `Path::strip_prefix`: the rest of `p` when the components of `base` begin
/// those of `p`.
pub open spec fn strip_prefix(p: Seq<char>, base: Seq<char>) -> Option<Seq<char>> {
    let pc = components(p);
    let bc = components(base);
    if bc.len() <= pc.len() && pc.take(bc.len() as int) == bc {
        Some(components_text(pc.skip(bc.len() as int)))
    } else {
        None
    }
}

pub fn components_of(p: &[char]) -> (r: Vec<Vec<char>>)
    ensures
        views(r@) == components(p@),
{
    let slash = ['/'];
    assert(slash@ =~= seq!['/']);
    let pieces = split_chars(p, false, &slash);
    let absolute = p.len() > 0 && p[0] == '/';
    let mut out: Vec<Vec<char>> = Vec::new();
    if absolute {
        out.push(vec!['/']);
        assert(views(out@) =~= seq![seq!['/']]);
    }
    let ghost pv = views(pieces@);
    let ghost head: Seq<Seq<char>> = if absolute {
        seq![seq!['/']]
    } else {
        seq![]
    };
    let mut i: usize = 0;
    assert(views(out@) =~= head + kept_pieces(pv.take(0), !absolute));
    while i < pieces.len()
        invariant
            i <= pieces.len(),
            pv == views(pieces@),
            views(out@) == head + kept_pieces(pv.take(i as int), !absolute),
        decreases pieces.len() - i,
    {
        assert(pv.take(i + 1).drop_last() =~= pv.take(i as int));
        assert(pv.take(i + 1).last() == pieces@[i as int]@);
        let piece = &pieces[i];
        let dot = piece.len() == 1 && piece[0] == '.';
        proof {
            if piece@ == seq!['.'] {
                assert(piece@.len() == 1 && piece@[0] == '.');
            }
            if dot {
                assert(piece@ =~= seq!['.']);
            }
        }
        if piece.len() > 0 && (!dot || (i == 0 && !absolute)) {
            let copy = slice_of(piece, 0, piece.len());
            assert(copy@ =~= piece@);
            let ghost cv = copy@;
            let ghost before = views(out@);
            out.push(copy);
            assert(views(out@) =~= before.push(cv));
            assert(views(out@) =~= head + kept_pieces(pv.take(i as int), !absolute).push(cv));
        }
        i = i + 1;
    }
    assert(pv.take(pieces.len() as int) =~= pv);
    out
}

fn components_text_chars(c: &[Vec<char>]) -> (r: Vec<char>)
    ensures
        r@ == components_text(views(c@)),
{
    let slash = ['/'];
    assert(slash@ =~= seq!['/']);
    if c.len() > 0 && c[0].len() == 1 && c[0][0] == '/' {
        assert(views(c@)[0] =~= seq!['/']);
        let mut rest: Vec<Vec<char>> = Vec::new();
        let mut i: usize = 1;
        while i < c.len()
            invariant
                1 <= i <= c.len(),
                rest@.len() == i - 1,
                views(rest@) == views(c@).subrange(1, i as int),
            decreases c.len() - i,
        {
            let x = slice_of(&c[i], 0, c[i].len());
            assert(x@ =~= c@[i as int]@);
            let ghost xv = x@;
            rest.push(x);
            assert(views(rest@)[i - 1] == xv);
            assert(views(rest@) =~= views(c@).subrange(1, i + 1));
            i = i + 1;
        }
        assert(views(c@).subrange(1, c.len() as int) =~= views(c@).drop_first());
        let joined = join_chars(&rest, &slash);
        let mut out: Vec<char> = Vec::new();
        out.push('/');
        push_all(&mut out, &joined);
        assert(out@ =~= seq!['/'] + joined@);
        out
    } else {
        proof {
            if c@.len() > 0 && views(c@)[0] == seq!['/'] {
                assert(c@[0]@.len() == 1 && c@[0]@[0] == '/');
            }
        }
        join_chars(c, &slash)
    }
}

/// `Path::strip_prefix(base)` of `p`, as text.
pub fn strip_prefix_chars(p: &[char], base: &[char]) -> (r: Option<Vec<char>>)
    ensures
        match strip_prefix(p@, base@) {
            Some(t) => r matches Some(x) && x@ == t,
            None => r is None,
        },
{
    let pc = components_of(p);
    let bc = components_of(base);
    if bc.len() > pc.len() {
        return None;
    }
    let ghost pv = views(pc@);
    let ghost bv = views(bc@);
    let mut i: usize = 0;
    while i < bc.len()
        invariant
            i <= bc.len() <= pc.len(),
            pv == views(pc@),
            bv == views(bc@),
            pv == components(p@),
            bv == components(base@),
            forall|k: int| 0 <= k < i ==> pv[k] == bv[k],
        decreases bc.len() - i,
    {
        if !seq_eq(&pc[i], &bc[i]) {
            assert(pv.take(bv.len() as int)[i as int] != bv[i as int]);
            return None;
        }
        i = i + 1;
    }
    assert(pv.take(bv.len() as int) =~= bv);
    let mut rest: Vec<Vec<char>> = Vec::new();
    let mut j = bc.len();
    while j < pc.len()
        invariant
            bc.len() <= j <= pc.len(),
            pv == views(pc@),
            rest@.len() == j - bc.len(),
            views(rest@) == pv.subrange(bc.len() as int, j as int),
        decreases pc.len() - j,
    {
        let x = slice_of(&pc[j], 0, pc[j].len());
        assert(x@ =~= pc@[j as int]@);
        let ghost xv = x@;
        rest.push(x);
        assert(views(rest@)[j - bc.len()] == xv);
        assert(views(rest@) =~= pv.subrange(bc.len() as int, j + 1));
        j = j + 1;
    }
    assert(pv.subrange(bc.len() as int, pc.len() as int) =~= pv.skip(bv.len() as int));
    Some(components_text_chars(&rest))
}

pub open spec fn relative_to_spec(path: Seq<char>, root: Seq<char>) -> Seq<char> {
    match strip_prefix(path, root) {
        Some(rel) => rel,
        None => path,
    }
}

/// `path` relative to `root` when `root` is one of its ancestors, else
/// `path` itself.
pub fn relative_to(path: &str, root: &str) -> (r: String)
    ensures
        r@ == relative_to_spec(path@, root@),
{
    let p = str_chars(path);
    let b = str_chars(root);
    match strip_prefix_chars(&p, &b) {
        Some(rel) => string_of(&rel),
        None => String::from_str(path),
    }
}


/// The index of the last `.` in a file name.
pub fn last_dot_index(name: &[char]) -> (r: Option<usize>)
    ensures
        match crate::brandcheck::last_dot(name@, name@.len() as int) {
            Some(i) => r matches Some(k) && k as int == i,
            None => r is None,
        },
        r matches Some(i) ==> i < name@.len(),
{
    let mut k = name.len();
    while k > 0 && name[k - 1] != '.'
        invariant
            k <= name.len(),
            crate::brandcheck::last_dot(name@, name@.len() as int) == crate::brandcheck::last_dot(
                name@,
                k as int,
            ),
        decreases k,
    {
        k = k - 1;
    }
    if k == 0 {
        None
    } else {
        Some(k - 1)
    }
}

/// `Path::file_stem` of a file name: the text before its last `.`, unless
/// that dot is the first character.
pub open spec fn stem_of_name(name: Seq<char>) -> Seq<char> {
    match crate::brandcheck::last_dot(name, name.len() as int) {
        Some(i) => if i > 0 {
            name.take(i)
        } else {
            name
        },
        None => name,
    }
}

pub fn name_stem(name: &str) -> (r: String)
    ensures
        r@ == stem_of_name(name@),
{
    let n = str_chars(name);
    match last_dot_index(&n) {
        Some(i) => if i > 0 {
            let before = slice_of(&n, 0, i);
            assert(before@ =~= n@.take(i as int));
            string_of(&before)
        } else {
            String::from_str(name)
        },
        None => String::from_str(name),
    }
}

/// `Path::file_name`: the last component, when it is a name (not the root,
/// `.` or `..`).
pub open spec fn file_name(p: Seq<char>) -> Option<Seq<char>> {
    let c = components(p);
    if c.len() == 0 || c.last() == seq!['/'] || c.last() == seq!['.'] || c.last() == seq!['.', '.'] {
        None
    } else {
        Some(c.last())
    }
}

pub fn path_file_name(p: &str) -> (r: Option<String>)
    ensures
        match file_name(p@) {
            Some(n) => r matches Some(x) && x@ == n,
            None => r is None,
        },
{
    let c = components_of(&str_chars(p));
    if c.len() == 0 {
        return None;
    }
    let last = &c[c.len() - 1];
    assert(views(c@).last() == last@);
    let root = ['/'];
    let dot = ['.'];
    let dots = ['.', '.'];
    assert(root@ =~= seq!['/']);
    assert(dot@ =~= seq!['.']);
    assert(dots@ =~= seq!['.', '.']);
    if seq_eq(last, &root) || seq_eq(last, &dot) || seq_eq(last, &dots) {
        None
    } else {
        Some(string_of(last))
    }
}

/// `Path::file_stem`.
pub open spec fn file_stem(p: Seq<char>) -> Option<Seq<char>> {
    match file_name(p) {
        Some(n) => Some(stem_of_name(n)),
        None => None,
    }
}

pub fn path_file_stem(p: &str) -> (r: Option<String>)
    ensures
        match file_stem(p@) {
            Some(n) => r matches Some(x) && x@ == n,
            None => r is None,
        },
{
    match path_file_name(p) {
        Some(n) => Some(name_stem(n.as_str())),
        None => None,
    }
}


// ---------------------------------------------------------------------------
// The order of paths
// ---------------------------------------------------------------------------

/// Components order by kind first (root, `.`, `..`, then names), and names
/// by their text.
pub open spec fn component_rank(c: Seq<char>) -> int {
    if c == seq!['/'] {
        0
    } else if c == seq!['.'] {
        1
    } else if c == seq!['.', '.'] {
        2
    } else {
        3
    }
}

pub open spec fn component_lt(x: Seq<char>, y: Seq<char>) -> bool {
    component_rank(x) < component_rank(y) || (component_rank(x) == component_rank(y) && x != y
        && crate::text::text_le(x, y))
}

/// `Path::cmp` is `Less`: the components compared in turn.
pub open spec fn components_lt(a: Seq<Seq<char>>, b: Seq<Seq<char>>) -> bool
    decreases a.len(),
{
    if b.len() == 0 {
        false
    } else if a.len() == 0 {
        true
    } else if a[0] != b[0] {
        component_lt(a[0], b[0])
    } else {
        components_lt(a.drop_first(), b.drop_first())
    }
}

fn rank_of(c: &[char]) -> (r: u8)
    ensures
        r as int == component_rank(c@),
{
    let root = ['/'];
    let dot = ['.'];
    let dots = ['.', '.'];
    assert(root@ =~= seq!['/']);
    assert(dot@ =~= seq!['.']);
    assert(dots@ =~= seq!['.', '.']);
    if seq_eq(c, &root) {
        0
    } else if seq_eq(c, &dot) {
        1
    } else if seq_eq(c, &dots) {
        2
    } else {
        3
    }
}

fn component_lt_exec(x: &[char], y: &[char]) -> (r: bool)
    ensures
        r == component_lt(x@, y@),
{
    let rx = rank_of(x);
    let ry = rank_of(y);
    rx < ry || (rx == ry && !seq_eq(x, y) && crate::text::text_le_chars(x, y))
}

pub fn components_lt_exec(a: &[Vec<char>], b: &[Vec<char>]) -> (r: bool)
    ensures
        r == components_lt(views(a@), views(b@)),
{
    let ghost av = views(a@);
    let ghost bv = views(b@);
    let mut i: usize = 0;
    assert(av.skip(0) =~= av);
    assert(bv.skip(0) =~= bv);
    while i < a.len() && i < b.len() && seq_eq(&a[i], &b[i])
        invariant
            i <= a.len(),
            i <= b.len(),
            av == views(a@),
            bv == views(b@),
            components_lt(av, bv) == components_lt(av.skip(i as int), bv.skip(i as int)),
        decreases a.len() - i,
    {
        assert(av.skip(i as int)[0] == av[i as int]);
        assert(bv.skip(i as int)[0] == bv[i as int]);
        assert(av.skip(i as int).drop_first() =~= av.skip(i + 1));
        assert(bv.skip(i as int).drop_first() =~= bv.skip(i + 1));
        i = i + 1;
    }
    if i == b.len() {
        false
    } else if i == a.len() {
        true
    } else {
        assert(av.skip(i as int)[0] == av[i as int]);
        assert(bv.skip(i as int)[0] == bv[i as int]);
        component_lt_exec(&a[i], &b[i])
    }
}

/// A path with its components.
pub open spec fn keyed(p: Seq<char>) -> (Seq<char>, Seq<Seq<char>>) {
    (p, components(p))
}

/// `x` inserted after the entries that are not greater than it.
pub open spec fn insert_path(s: Seq<(Seq<char>, Seq<Seq<char>>)>, x: (Seq<char>, Seq<Seq<char>>)) -> Seq<
    (Seq<char>, Seq<Seq<char>>),
>
    decreases s.len(),
{
    if s.len() == 0 {
        seq![x]
    } else if components_lt(x.1, s[0].1) {
        seq![x] + s
    } else {
        seq![s[0]] + insert_path(s.drop_first(), x)
    }
}

/// Paths in `Path` order, equal paths in the order they came.
pub open spec fn sort_paths(s: Seq<(Seq<char>, Seq<Seq<char>>)>) -> Seq<(Seq<char>, Seq<Seq<char>>)>
    decreases s.len(),
{
    if s.len() == 0 {
        s
    } else {
        insert_path(sort_paths(s.drop_last()), s.last())
    }
}

/// Each run of equal paths kept once, by its first member.
pub open spec fn dedup_paths(s: Seq<(Seq<char>, Seq<Seq<char>>)>) -> Seq<(Seq<char>, Seq<Seq<char>>)>
    decreases s.len(),
{
    if s.len() <= 1 {
        s
    } else if s.last().1 == s[s.len() - 2].1 {
        dedup_paths(s.drop_last())
    } else {
        dedup_paths(s.drop_last()).push(s.last())
    }
}

/// The distinct paths of `paths` in `Path` order, as a `BTreeSet` of paths
/// holds them.
pub open spec fn path_set_order(paths: Seq<Seq<char>>) -> Seq<Seq<char>> {
    dedup_paths(sort_paths(paths.map_values(|p: Seq<char>| keyed(p)))).map_values(
        |e: (Seq<char>, Seq<Seq<char>>)| e.0,
    )
}

pub open spec fn keyed_views(v: Seq<(Vec<char>, Vec<Vec<char>>)>) -> Seq<(Seq<char>, Seq<Seq<char>>)> {
    v.map_values(|e: (Vec<char>, Vec<Vec<char>>)| (e.0@, views(e.1@)))
}

fn insert_path_vec(v: &mut Vec<(Vec<char>, Vec<Vec<char>>)>, x: (Vec<char>, Vec<Vec<char>>))
    ensures
        keyed_views(final(v)@) == insert_path(keyed_views(old(v)@), (x.0@, views(x.1@))),
{
    let ghost s0 = keyed_views(v@);
    let ghost xv = (x.0@, views(x.1@));
    let mut i: usize = 0;
    assert(s0.skip(0) =~= s0);
    assert(s0.take(0) + insert_path(s0, xv) =~= insert_path(s0, xv));
    while i < v.len() && !components_lt_exec(&x.1, &v[i].1)
        invariant
            i <= v.len(),
            keyed_views(v@) == s0,
            xv == (x.0@, views(x.1@)),
            insert_path(s0, xv) == s0.take(i as int) + insert_path(s0.skip(i as int), xv),
        decreases v.len() - i,
    {
        proof {
            assert(s0[i as int] == (v@[i as int].0@, views(v@[i as int].1@)));
            assert(s0.skip(i as int)[0] == s0[i as int]);
            assert(s0.skip(i as int).drop_first() =~= s0.skip(i + 1));
            assert(s0.take(i + 1) =~= s0.take(i as int) + seq![s0[i as int]]);
        }
        i = i + 1;
    }
    proof {
        if i < s0.len() {
            assert(s0[i as int] == (v@[i as int].0@, views(v@[i as int].1@)));
            assert(s0.skip(i as int)[0] == s0[i as int]);
        }
    }
    v.insert(i, x);
    proof {
        assert(keyed_views(v@) =~= s0.take(i as int) + (seq![xv] + s0.skip(i as int)));
        assert(s0 =~= s0.take(i as int) + s0.skip(i as int));
    }
}

/// The distinct paths of `paths` in `Path` order.
pub fn sorted_path_set(paths: &[String]) -> (r: Vec<String>)
    ensures
        crate::brandcheck::string_views(r@) == path_set_order(crate::brandcheck::string_views(paths@)),
{
    let ghost pv = crate::brandcheck::string_views(paths@);
    let ghost kv = pv.map_values(|p: Seq<char>| keyed(p));
    let mut sorted: Vec<(Vec<char>, Vec<Vec<char>>)> = Vec::new();
    let mut i: usize = 0;
    while i < paths.len()
        invariant
            i <= paths.len(),
            pv == crate::brandcheck::string_views(paths@),
            kv == pv.map_values(|p: Seq<char>| keyed(p)),
            keyed_views(sorted@) == sort_paths(kv.take(i as int)),
        decreases paths.len() - i,
    {
        let p = str_chars(paths[i].as_str());
        let c = components_of(&p);
        assert(kv.take(i + 1).drop_last() =~= kv.take(i as int));
        assert(kv.take(i + 1).last() == (p@, views(c@)));
        insert_path_vec(&mut sorted, (p, c));
        i = i + 1;
    }
    assert(kv.take(paths.len() as int) =~= kv);
    let ghost sv = keyed_views(sorted@);
    let mut out: Vec<String> = Vec::new();
    let ghost mut kept: Seq<(Seq<char>, Seq<Seq<char>>)> = Seq::empty();
    let mut j: usize = 0;
    while j < sorted.len()
        invariant
            j <= sorted.len(),
            sv == keyed_views(sorted@),
            kept == dedup_paths(sv.take(j as int)),
            crate::brandcheck::string_views(out@) == kept.map_values(
                |e: (Seq<char>, Seq<Seq<char>>)| e.0,
            ),
        decreases sorted.len() - j,
    {
        assert(sv.take(j + 1).drop_last() =~= sv.take(j as int));
        assert(sv.take(j + 1).last() == sv[j as int]);
        assert(sv[j as int] == (sorted@[j as int].0@, views(sorted@[j as int].1@)));
        if j > 0 {
            assert(sv.take(j + 1)[j - 1] == sv[j - 1]);
            assert(sv[j - 1] == (sorted@[j - 1].0@, views(sorted@[j - 1].1@)));
        }
        let same = j > 0 && crate::paths::same_components(&sorted[j].1, &sorted[j - 1].1);
        if same {
            assert(kept =~= dedup_paths(sv.take(j + 1)));
        } else {
            let s = string_of(&sorted[j].0);
            let ghost before = crate::brandcheck::string_views(out@);
            let ghost old_kept = kept;
            out.push(s);
            assert(crate::brandcheck::string_views(out@) =~= before.push(sv[j as int].0));
            proof {
                kept = kept.push(sv[j as int]);
            }
            assert(kept.map_values(|e: (Seq<char>, Seq<Seq<char>>)| e.0) =~= old_kept.map_values(
                |e: (Seq<char>, Seq<Seq<char>>)| e.0,
            ).push(sv[j as int].0));
            assert(crate::brandcheck::string_views(out@) =~= kept.map_values(
                |e: (Seq<char>, Seq<Seq<char>>)| e.0,
            ));
            assert(kept =~= dedup_paths(sv.take(j + 1)));
        }
        j = j + 1;
    }
    assert(sv.take(sorted.len() as int) =~= sv);
    out
}

/// Whether two component lists are equal.
pub fn same_components(a: &Vec<Vec<char>>, b: &Vec<Vec<char>>) -> (r: bool)
    ensures
        r == (views(a@) == views(b@)),
{
    if a.len() != b.len() {
        assert(views(a@).len() != views(b@).len());
        return false;
    }
    let mut i: usize = 0;
    while i < a.len()
        invariant
            i <= a.len(),
            a.len() == b.len(),
            forall|k: int| 0 <= k < i ==> views(a@)[k] == views(b@)[k],
        decreases a.len() - i,
    {
        if !seq_eq(&a[i], &b[i]) {
            assert(views(a@)[i as int] != views(b@)[i as int]);
            return false;
        }
        i = i + 1;
    }
    assert(views(a@) =~= views(b@));
    true
}


/// `Path::parent`: the path without its last component, unless that is the
/// root or there is none.
pub open spec fn parent(p: Seq<char>) -> Option<Seq<char>> {
    let c = components(p);
    if c.len() == 0 || c.last() == seq!['/'] {
        None
    } else {
        Some(components_text(c.drop_last()))
    }
}

pub fn parent_path(p: &str) -> (r: Option<String>)
    ensures
        match parent(p@) {
            Some(q) => r matches Some(x) && x@ == q,
            None => r is None,
        },
{
    let c = components_of(&str_chars(p));
    if c.len() == 0 {
        return None;
    }
    let root = ['/'];
    assert(root@ =~= seq!['/']);
    assert(views(c@).last() == c@[c.len() - 1]@);
    if seq_eq(&c[c.len() - 1], &root) {
        return None;
    }
    let rest = slice_vecs(&c, c.len() - 1);
    assert(views(rest@) =~= views(c@).drop_last());
    Some(string_of(&components_text_chars(&rest)))
}

fn slice_vecs(c: &Vec<Vec<char>>, n: usize) -> (r: Vec<Vec<char>>)
    requires
        n <= c.len(),
    ensures
        views(r@) == views(c@).take(n as int),
{
    let mut out: Vec<Vec<char>> = Vec::new();
    let mut i: usize = 0;
    while i < n
        invariant
            i <= n,
            n <= c.len(),
            views(out@) == views(c@).take(i as int),
        decreases n - i,
    {
        let ghost before = views(out@);
        let x = slice_of(&c[i], 0, c[i].len());
        assert(x@ =~= c@[i as int]@);
        out.push(x);
        assert(views(out@) =~= before.push(views(c@)[i as int]));
        assert(views(c@).take(i + 1) =~= views(c@).take(i as int).push(views(c@)[i as int]));
        i = i + 1;
    }
    out
}


/// `Path::with_extension`: the file name's extension replaced by `ext`
/// (added when there is none), the path read through its components; a
/// path without a file name stays as it is.
pub open spec fn with_extension(p: Seq<char>, ext: Seq<char>) -> Seq<char> {
    match file_name(p) {
        Some(n) => join_path(components_text(components(p).drop_last()), stem_of_name(n) + seq!['.'] + ext),
        None => p,
    }
}

pub fn path_with_extension(p: &str, ext: &str) -> (r: String)
    ensures
        r@ == with_extension(p@, ext@),
{
    match path_file_name(p) {
        Some(n) => {
            let parent = match parent_path(p) {
                Some(q) => q,
                None => String::new(),
            };
            let mut name = str_chars(name_stem(n.as_str()).as_str());
            name.push('.');
            let e = str_chars(ext);
            push_all(&mut name, &e);
            string_of(&join_path_chars(&str_chars(parent.as_str()), &name))
        },
        None => String::from_str(p),
    }
}

} // verus!
