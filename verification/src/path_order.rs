use vstd::prelude::*;

use crate::text::chars_of;

verus! {

/// A path component, ranked as std's `Component` variants are ordered:
/// root directory (1), current directory (2), parent directory (3), normal
/// component (4, with its text).
pub struct PathPart {
    pub rank: u8,
    pub text: Seq<char>,
}

/// The pieces of a path between `/` separators, empty ones included.
pub open spec fn split_pieces(p: Seq<char>) -> Seq<Seq<char>>
    decreases p.len(),
{
    if p.len() == 0 {
        seq![Seq::empty()]
    } else {
        let before = split_pieces(p.drop_last());
        if p.last() == '/' {
            before.push(Seq::empty())
        } else {
            before.drop_last().push(before.last().push(p.last()))
        }
    }
}

/// The components the pieces after the start of a path give: empty pieces
/// (repeated or trailing separators) and `.` are dropped, `..` is the parent
/// directory, anything else a normal component.
pub open spec fn body_parts(pieces: Seq<Seq<char>>) -> Seq<PathPart>
    decreases pieces.len(),
{
    if pieces.len() == 0 {
        Seq::empty()
    } else {
        let before = body_parts(pieces.drop_last());
        let s = pieces.last();
        if s.len() == 0 || s == seq!['.'] {
            before
        } else if s == seq!['.', '.'] {
            before.push(PathPart { rank: 3, text: Seq::empty() })
        } else {
            before.push(PathPart { rank: 4, text: s })
        }
    }
}

/// The components of a path as std's `Path::components` gives them on Unix:
/// a leading `/` is the root directory; a leading `.` piece (in a relative
/// path) is the current directory; then the body's components.
pub open spec fn path_components(p: Seq<char>) -> Seq<PathPart> {
    let pieces = split_pieces(p);
    if p.len() > 0 && p[0] == '/' {
        seq![PathPart { rank: 1, text: Seq::empty() }] + body_parts(pieces)
    } else if pieces[0] == seq!['.'] {
        seq![PathPart { rank: 2, text: Seq::empty() }] + body_parts(pieces)
    } else {
        body_parts(pieces)
    }
}

/// Texts compared character by character (by code point, which orders UTF-8
/// text as its bytes do); a prefix comes first.
pub open spec fn text_le(a: Seq<char>, b: Seq<char>) -> bool
    decreases a.len(),
{
    if a.len() == 0 {
        true
    } else if b.len() == 0 {
        false
    } else if a[0] != b[0] {
        a[0] < b[0]
    } else {
        text_le(a.drop_first(), b.drop_first())
    }
}

/// Components compared: by rank, then by text.
pub open spec fn part_le(a: PathPart, b: PathPart) -> bool {
    a.rank < b.rank || (a.rank == b.rank && text_le(a.text, b.text))
}

/// Component lists compared lexicographically.
pub open spec fn parts_le(a: Seq<PathPart>, b: Seq<PathPart>) -> bool
    decreases a.len(),
{
    if a.len() == 0 {
        true
    } else if b.len() == 0 {
        false
    } else if a[0] != b[0] {
        part_le(a[0], b[0])
    } else {
        parts_le(a.drop_first(), b.drop_first())
    }
}

/// `a` sorts no later than `b` in std's order of paths (`Path`'s `Ord`,
/// which compares their components).
pub open spec fn path_le(a: Seq<char>, b: Seq<char>) -> bool {
    parts_le(path_components(a), path_components(b))
}

proof fn lemma_text_le_total(a: Seq<char>, b: Seq<char>)
    ensures
        text_le(a, b) || text_le(b, a),
        text_le(a, b) && text_le(b, a) ==> a == b,
    decreases a.len(),
{
    if a.len() > 0 && b.len() > 0 && a[0] == b[0] {
        lemma_text_le_total(a.drop_first(), b.drop_first());
        assert(a =~= seq![a[0]] + a.drop_first());
        assert(b =~= seq![b[0]] + b.drop_first());
    } else if a.len() == 0 && b.len() == 0 {
        assert(a =~= b);
    }
}

proof fn lemma_text_le_transitive(a: Seq<char>, b: Seq<char>, c: Seq<char>)
    requires
        text_le(a, b),
        text_le(b, c),
    ensures
        text_le(a, c),
    decreases a.len(),
{
    if a.len() > 0 && b.len() > 0 && c.len() > 0 && a[0] == b[0] && b[0] == c[0] {
        lemma_text_le_transitive(a.drop_first(), b.drop_first(), c.drop_first());
    }
}

proof fn lemma_part_le_total(a: PathPart, b: PathPart)
    ensures
        part_le(a, b) || part_le(b, a),
        part_le(a, b) && part_le(b, a) ==> a == b,
{
    lemma_text_le_total(a.text, b.text);
}

proof fn lemma_part_le_transitive(a: PathPart, b: PathPart, c: PathPart)
    requires
        part_le(a, b),
        part_le(b, c),
    ensures
        part_le(a, c),
{
    if a.rank == b.rank && b.rank == c.rank {
        lemma_text_le_transitive(a.text, b.text, c.text);
    }
}

/// Any two component lists are ordered one way or the other.
pub proof fn lemma_parts_le_total(a: Seq<PathPart>, b: Seq<PathPart>)
    ensures
        parts_le(a, b) || parts_le(b, a),
    decreases a.len(),
{
    if a.len() > 0 && b.len() > 0 {
        if a[0] != b[0] {
            lemma_part_le_total(a[0], b[0]);
        } else {
            lemma_parts_le_total(a.drop_first(), b.drop_first());
        }
    }
}

/// The order of component lists is transitive.
pub proof fn lemma_parts_le_transitive(a: Seq<PathPart>, b: Seq<PathPart>, c: Seq<PathPart>)
    requires
        parts_le(a, b),
        parts_le(b, c),
    ensures
        parts_le(a, c),
    decreases a.len(),
{
    if a.len() > 0 && b.len() > 0 && c.len() > 0 {
        if a[0] != b[0] && b[0] != c[0] {
            lemma_part_le_transitive(a[0], b[0], c[0]);
            if a[0] == c[0] {
                lemma_part_le_total(a[0], b[0]);
            }
        } else if a[0] != b[0] {
            assert(b[0] == c[0]);
        } else if b[0] != c[0] {
            assert(a[0] == b[0]);
        } else {
            lemma_parts_le_transitive(a.drop_first(), b.drop_first(), c.drop_first());
        }
    }
}

/// The pieces of a path between separators.
fn split_pieces_exec(cs: &Vec<char>) -> (r: Vec<Vec<char>>)
    ensures
        r@.map_values(|v: Vec<char>| v@) == split_pieces(cs@),
{
    let mut pieces: Vec<Vec<char>> = vec![Vec::new()];
    let mut i: usize = 0;
    assert(cs@.take(0) =~= Seq::<char>::empty());
    assert(pieces@.map_values(|v: Vec<char>| v@) =~= split_pieces(cs@.take(0)));
    while i < cs.len()
        invariant
            i <= cs@.len(),
            pieces@.len() > 0,
            pieces@.map_values(|v: Vec<char>| v@) == split_pieces(cs@.take(i as int)),
        decreases cs@.len() - i,
    {
        let c = cs[i];
        let ghost before = pieces@.map_values(|v: Vec<char>| v@);
        assert(cs@.take(i + 1).drop_last() =~= cs@.take(i as int));
        assert(cs@.take(i + 1).last() == c);
        if c == '/' {
            pieces.push(Vec::new());
            assert(pieces@.map_values(|v: Vec<char>| v@) =~= before.push(Seq::empty()));
        } else {
            let mut last = pieces.pop().unwrap();
            let ghost last_before = last@;
            assert(last_before == before.last());
            last.push(c);
            pieces.push(last);
            assert(pieces@.map_values(|v: Vec<char>| v@) =~= before.drop_last().push(before.last().push(c)));
        }
        i = i + 1;
    }
    assert(cs@.take(cs@.len() as int) =~= cs@);
    pieces
}

/// A component as plain values.
pub open spec fn part_view(p: (u8, Vec<char>)) -> PathPart {
    PathPart { rank: p.0, text: p.1@ }
}

/// Components as plain values.
pub open spec fn parts_view(v: Seq<(u8, Vec<char>)>) -> Seq<PathPart> {
    v.map_values(|p: (u8, Vec<char>)| part_view(p))
}

fn is_dot(s: &Vec<char>) -> (r: bool)
    ensures
        r == (s@ == seq!['.']),
{
    if s.len() == 1 && s[0] == '.' {
        assert(s@ =~= seq!['.']);
        true
    } else {
        false
    }
}

fn is_dot_dot(s: &Vec<char>) -> (r: bool)
    ensures
        r == (s@ == seq!['.', '.']),
{
    if s.len() == 2 && s[0] == '.' && s[1] == '.' {
        assert(s@ =~= seq!['.', '.']);
        true
    } else {
        false
    }
}

/// The components of a path, as std's `Path::components` gives them on Unix.
pub fn components_of(path: &str) -> (r: Vec<(u8, Vec<char>)>)
    ensures
        parts_view(r@) == path_components(path@),
{
    let cs = chars_of(path);
    let pieces = split_pieces_exec(&cs);
    let ghost pv = pieces@.map_values(|v: Vec<char>| v@);
    let mut parts: Vec<(u8, Vec<char>)> = Vec::new();
    let rooted = cs.len() > 0 && cs[0] == '/';
    assert(pv.len() > 0) by {
        lemma_split_pieces_nonempty(cs@);
    }
    if rooted {
        parts.push((1, Vec::new()));
    } else if is_dot(&pieces[0]) {
        parts.push((2, Vec::new()));
    }
    let ghost head = parts_view(parts@);
    let mut i: usize = 0;
    assert(pv.take(0) =~= Seq::<Seq<char>>::empty());
    assert(parts_view(parts@) =~= head + body_parts(pv.take(0)));
    while i < pieces.len()
        invariant
            i <= pieces@.len(),
            pv == pieces@.map_values(|v: Vec<char>| v@),
            parts_view(parts@) == head + body_parts(pv.take(i as int)),
        decreases pieces@.len() - i,
    {
        let ghost before = parts_view(parts@);
        assert(pv.take(i + 1).drop_last() =~= pv.take(i as int));
        assert(pv.take(i + 1).last() == pieces@[i as int]@);
        let piece = &pieces[i];
        if piece.len() == 0 || is_dot(piece) {
        } else if is_dot_dot(piece) {
            parts.push((3, Vec::new()));
            assert(parts_view(parts@) =~= before.push(PathPart { rank: 3, text: Seq::empty() }));
        } else {
            parts.push((4, piece.clone()));
            assert(parts_view(parts@) =~= before.push(PathPart { rank: 4, text: piece@ }));
        }
        i = i + 1;
    }
    assert(pv.take(pieces@.len() as int) =~= pv);
    parts
}

/// A path always has at least one piece.
proof fn lemma_split_pieces_nonempty(p: Seq<char>)
    ensures
        split_pieces(p).len() > 0,
    decreases p.len(),
{
    if p.len() > 0 {
        lemma_split_pieces_nonempty(p.drop_last());
    }
}

fn text_le_exec(a: &Vec<char>, b: &Vec<char>) -> (r: bool)
    ensures
        r == text_le(a@, b@),
{
    let mut i: usize = 0;
    assert(a@.skip(0) =~= a@);
    assert(b@.skip(0) =~= b@);
    while i < a.len() && i < b.len() && a[i] == b[i]
        invariant
            i <= a@.len(),
            i <= b@.len(),
            text_le(a@, b@) == text_le(a@.skip(i as int), b@.skip(i as int)),
        decreases a@.len() - i,
    {
        assert(a@.skip(i as int).drop_first() =~= a@.skip(i + 1));
        assert(b@.skip(i as int).drop_first() =~= b@.skip(i + 1));
        i = i + 1;
    }
    if i == a.len() {
        true
    } else if i == b.len() {
        false
    } else {
        a[i] < b[i]
    }
}

pub(crate) fn part_eq(a: &(u8, Vec<char>), b: &(u8, Vec<char>)) -> (r: bool)
    ensures
        r == (part_view(*a) == part_view(*b)),
{
    if a.0 != b.0 || a.1.len() != b.1.len() {
        return false;
    }
    let mut i: usize = 0;
    while i < a.1.len()
        invariant
            i <= a.1@.len(),
            a.1@.len() == b.1@.len(),
            forall|j: int| 0 <= j < i ==> a.1@[j] == b.1@[j],
        decreases a.1@.len() - i,
    {
        if a.1[i] != b.1[i] {
            return false;
        }
        i = i + 1;
    }
    assert(a.1@ =~= b.1@);
    true
}

/// Whether path `a` sorts no later than path `b` in std's order of paths.
pub fn path_le_exec(a: &str, b: &str) -> (r: bool)
    ensures
        r == path_le(a@, b@),
{
    let pa = components_of(a);
    let pb = components_of(b);
    let ghost va = parts_view(pa@);
    let ghost vb = parts_view(pb@);
    let mut i: usize = 0;
    assert(va.skip(0) =~= va);
    assert(vb.skip(0) =~= vb);
    while i < pa.len() && i < pb.len() && part_eq(&pa[i], &pb[i])
        invariant
            i <= pa@.len(),
            i <= pb@.len(),
            va == parts_view(pa@),
            vb == parts_view(pb@),
            parts_le(va, vb) == parts_le(va.skip(i as int), vb.skip(i as int)),
        decreases pa@.len() - i,
    {
        assert(va.skip(i as int).drop_first() =~= va.skip(i + 1));
        assert(vb.skip(i as int).drop_first() =~= vb.skip(i + 1));
        i = i + 1;
    }
    if i == pa.len() {
        true
    } else if i == pb.len() {
        false
    } else {
        assert(va.skip(i as int)[0] == part_view(pa@[i as int]));
        assert(vb.skip(i as int)[0] == part_view(pb@[i as int]));
        pa[i].0 < pb[i].0 || (pa[i].0 == pb[i].0 && text_le_exec(&pa[i].1, &pb[i].1))
    }
}

} // verus!
