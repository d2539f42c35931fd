use vstd::prelude::*;

use crate::text::{chars_of, push_char};

verus! {

/// Standard terminal width for snapshot tests.
pub const TERM_WIDTH: u16 = 80;

/// Standard terminal height for snapshot tests.
pub const TERM_HEIGHT: u16 = 24;

/// Unicode's White_Space property, which std's `char::is_whitespace` tests.
pub open spec fn is_white_space(c: char) -> bool {
    ('\u{9}' <= c && c <= '\u{d}') || c == ' ' || c == '\u{85}' || c == '\u{a0}' || c == '\u{1680}'
        || ('\u{2000}' <= c && c <= '\u{200a}') || c == '\u{2028}' || c == '\u{2029}' || c == '\u{202f}'
        || c == '\u{205f}' || c == '\u{3000}'
}

/// A text without its trailing white space.
pub open spec fn trim_end(s: Seq<char>) -> Seq<char>
    decreases s.len(),
{
    if s.len() > 0 && is_white_space(s.last()) {
        trim_end(s.drop_last())
    } else {
        s
    }
}

/// Texts one after the other.
pub open spec fn concat_all(parts: Seq<Seq<char>>) -> Seq<char>
    decreases parts.len(),
{
    if parts.len() == 0 {
        Seq::empty()
    } else {
        concat_all(parts.drop_last()) + parts.last()
    }
}

/// Texts one after the other, with `sep` between two neighbours.
pub open spec fn join_with(parts: Seq<Seq<char>>, sep: Seq<char>) -> Seq<char>
    decreases parts.len(),
{
    if parts.len() == 0 {
        Seq::empty()
    } else if parts.len() == 1 {
        parts[0]
    } else {
        join_with(parts.drop_last(), sep) + sep + parts.last()
    }
}

/// The symbols of one row of cells as plain texts.
pub open spec fn symbols_view(row: Seq<String>) -> Seq<Seq<char>> {
    row.map_values(|s: String| s@)
}

/// The text of one row: its cells' symbols in order, trailing white space trimmed.
pub open spec fn row_text_of(row: Seq<String>) -> Seq<char> {
    trim_end(concat_all(symbols_view(row)))
}

/// The text of a screen: one trimmed line per row, joined by newlines.
pub open spec fn screen_text(rows: Seq<Vec<String>>) -> Seq<char> {
    join_with(rows.map_values(|r: Vec<String>| row_text_of(r@)), seq!['\n'])
}

/// Whether a character is white space: std's `char::is_whitespace`.
pub fn white_space(c: char) -> (r: bool)
    ensures
        r == is_white_space(c),
{
    ('\u{9}' <= c && c <= '\u{d}') || c == ' ' || c == '\u{85}' || c == '\u{a0}' || c == '\u{1680}'
        || ('\u{2000}' <= c && c <= '\u{200a}') || c == '\u{2028}' || c == '\u{2029}' || c == '\u{202f}'
        || c == '\u{205f}' || c == '\u{3000}'
}

/// Extract the text of a single buffer row (the symbols of its cells, in
/// order), trimming trailing whitespace.
pub fn row_text(row: &Vec<String>) -> (r: String)
    ensures
        r@ == row_text_of(row@),
{
    let mut cs: Vec<char> = Vec::new();
    let mut i: usize = 0;
    assert(symbols_view(row@).take(0) =~= Seq::<Seq<char>>::empty());
    while i < row.len()
        invariant
            i <= row@.len(),
            cs@ == concat_all(symbols_view(row@).take(i as int)),
        decreases row@.len() - i,
    {
        let more = chars_of(row[i].as_str());
        let mut k: usize = 0;
        let ghost before = cs@;
        while k < more.len()
            invariant
                k <= more@.len(),
                cs@ == before + more@.take(k as int),
            decreases more@.len() - k,
        {
            cs.push(more[k]);
            assert(more@.take(k + 1) =~= more@.take(k as int).push(more@[k as int]));
            k = k + 1;
        }
        assert(more@.take(more@.len() as int) =~= more@);
        assert(symbols_view(row@).take(i + 1).drop_last() =~= symbols_view(row@).take(i as int));
        assert(symbols_view(row@).take(i + 1).last() == row@[i as int]@);
        i = i + 1;
    }
    assert(symbols_view(row@).take(row@.len() as int) =~= symbols_view(row@));
    let ghost whole = cs@;
    let mut n: usize = cs.len();
    assert(whole.take(cs@.len() as int) =~= whole);
    while n > 0 && white_space(cs[n - 1])
        invariant
            n <= cs@.len(),
            cs@ == whole,
            trim_end(whole) == trim_end(whole.take(n as int)),
        decreases n,
    {
        assert(whole.take(n as int).drop_last() =~= whole.take(n - 1));
        assert(whole.take(n as int).last() == cs@[n - 1]);
        n = n - 1;
    }
    assert(trim_end(whole.take(n as int)) == whole.take(n as int)) by {
        if n > 0 {
            assert(whole.take(n as int).last() == cs@[n - 1]);
        }
    }
    let mut r = String::new();
    let mut j: usize = 0;
    while j < n
        invariant
            j <= n <= cs@.len(),
            cs@ == whole,
            r@ == whole.take(j as int),
        decreases n - j,
    {
        push_char(&mut r, cs[j]);
        assert(whole.take(j + 1) =~= whole.take(j as int).push(whole[j as int]));
        j = j + 1;
    }
    r
}

/// Render the rows of a terminal buffer to text: one trimmed line per row,
/// joined by newlines.
pub fn buffer_text(rows: &Vec<Vec<String>>) -> (r: String)
    ensures
        r@ == screen_text(rows@),
{
    let ghost lines = rows@.map_values(|row: Vec<String>| row_text_of(row@));
    let mut r = String::new();
    let mut i: usize = 0;
    assert(lines.take(0) =~= Seq::<Seq<char>>::empty());
    while i < rows.len()
        invariant
            i <= rows@.len(),
            lines == rows@.map_values(|row: Vec<String>| row_text_of(row@)),
            r@ == join_with(lines.take(i as int), seq!['\n']),
        decreases rows@.len() - i,
    {
        let line = row_text(&rows[i]);
        let ghost before = r@;
        if i > 0 {
            push_char(&mut r, '\n');
        }
        r.append(line.as_str());
        assert(lines.take(i + 1).drop_last() =~= lines.take(i as int));
        assert(lines.take(i + 1).last() == line@);
        if i == 0 {
            assert(lines.take(1) =~= seq![line@]);
            assert(r@ =~= line@);
        } else {
            assert(r@ =~= before + seq!['\n'] + line@);
        }
        i = i + 1;
    }
    assert(lines.take(rows@.len() as int) =~= lines);
    r
}

} // verus!
