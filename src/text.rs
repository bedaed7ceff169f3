//! Reading the text of a decision table into lines of characters.

use vstd::prelude::*;
use vstd::std_specs::iter::IteratorSpec;

verus! {

/// White space as Rust's `char::is_whitespace` defines it (the Unicode
/// `White_Space` property).
pub open spec fn spec_is_whitespace(c: char) -> bool {
    ('\u{0009}' <= c && c <= '\u{000D}') || c == '\u{0020}' || c == '\u{0085}' || c == '\u{00A0}'
        || c == '\u{1680}' || ('\u{2000}' <= c && c <= '\u{200A}') || c == '\u{2028}'
        || c == '\u{2029}' || c == '\u{202F}' || c == '\u{205F}' || c == '\u{3000}'
}

/// `s` without its trailing white space.
pub open spec fn spec_trim_end(s: Seq<char>) -> Seq<char>
    decreases s.len(),
{
    if s.len() > 0 && spec_is_whitespace(s.last()) {
        spec_trim_end(s.drop_last())
    } else {
        s
    }
}

/// `lines` with `line` appended, trimmed of trailing white space, unless
/// nothing is left of it.
pub open spec fn spec_flush(lines: Seq<Seq<char>>, line: Seq<char>) -> Seq<Seq<char>> {
    if spec_trim_end(line).len() > 0 {
        lines.push(spec_trim_end(line))
    } else {
        lines
    }
}

/// The lines completed in `s`, and the characters of the line still open
/// at its end.
pub open spec fn spec_scan(s: Seq<char>) -> (Seq<Seq<char>>, Seq<char>)
    decreases s.len(),
{
    if s.len() == 0 {
        (Seq::empty(), Seq::empty())
    } else {
        let (lines, line) = spec_scan(s.drop_last());
        if s.last() == '\n' {
            (spec_flush(lines, line), Seq::empty())
        } else {
            (lines, line.push(s.last()))
        }
    }
}

/// The non-blank lines of `s`, each trimmed of trailing white space.
pub open spec fn spec_lines(s: Seq<char>) -> Seq<Seq<char>> {
    spec_flush(spec_scan(s).0, spec_scan(s).1)
}

fn is_whitespace(c: char) -> (r: bool)
    ensures
        r == spec_is_whitespace(c),
{
    ('\u{0009}' <= c && c <= '\u{000D}') || c == '\u{0020}' || c == '\u{0085}' || c == '\u{00A0}'
        || c == '\u{1680}' || ('\u{2000}' <= c && c <= '\u{200A}') || c == '\u{2028}'
        || c == '\u{2029}' || c == '\u{202F}' || c == '\u{205F}' || c == '\u{3000}'
}

/// Removes trailing white space from `line`.
fn trim_end(line: &mut Vec<char>)
    ensures
        final(line)@ == spec_trim_end(old(line)@),
{
    while line.len() > 0 && is_whitespace(line[line.len() - 1])
        invariant
            spec_trim_end(line@) == spec_trim_end(old(line)@),
        decreases line@.len(),
    {
        line.pop();
    }
}

/// Appends `line`, trimmed of trailing white space, to `lines` unless
/// nothing is left of it.
fn flush(lines: &mut Vec<Vec<char>>, line: Vec<char>)
    ensures
        final(lines)@.map_values(|l: Vec<char>| l@) == spec_flush(old(lines)@.map_values(|l: Vec<char>| l@), line@),
{
    let mut line = line;
    trim_end(&mut line);
    if line.len() > 0 {
        let ghost before = lines@;
        lines.push(line);
        assert(lines@.map_values(|l: Vec<char>| l@) =~= before.map_values(|l: Vec<char>| l@).push(line@));
    }
}

/// Splits `text` into its non-blank lines, each trimmed of trailing white space.
pub fn lines(text: &str) -> (r: Vec<Vec<char>>)
    ensures
        r@.map_values(|l: Vec<char>| l@) == spec_lines(text@),
{
    let mut lines: Vec<Vec<char>> = Vec::new();
    let mut line: Vec<char> = Vec::new();
    let mut it = text.chars();
    let ghost mut i: int = 0;
    assert(text@.subrange(0, 0) =~= Seq::<char>::empty());
    assert(lines@.map_values(|l: Vec<char>| l@) =~= Seq::<Seq<char>>::empty());
    loop
        invariant
            0 <= i <= text@.len(),
            it.obeys_prophetic_iter_laws(),
            it.remaining() == text@.subrange(i, text@.len() as int),
            (lines@.map_values(|l: Vec<char>| l@), line@) == spec_scan(text@.subrange(0, i)),
        ensures
            i == text@.len(),
            (lines@.map_values(|l: Vec<char>| l@), line@) == spec_scan(text@.subrange(0, i)),
        decreases text@.len() - i,
    {
        match it.next() {
            Some(c) => {
                proof {
                    assert(text@.subrange(0, i + 1).drop_last() =~= text@.subrange(0, i));
                    assert(text@.subrange(0, i + 1).last() == c);
                    assert(text@.subrange(i + 1, text@.len() as int) =~= text@.subrange(i, text@.len() as int).drop_first());
                    i = i + 1;
                }
                if c == '\n' {
                    let done = line;
                    line = Vec::new();
                    flush(&mut lines, done);
                } else {
                    line.push(c);
                }
            },
            None => {
                break;
            },
        }
    }
    assert(text@.subrange(0, text@.len() as int) =~= text@);
    flush(&mut lines, line);
    lines
}

} // verus!

verus! {

proof fn lemma_scan_nonempty(s: Seq<char>)
    ensures
        forall|i: int| 0 <= i < spec_scan(s).0.len() ==> (#[trigger] spec_scan(s).0[i]).len() > 0,
    decreases s.len(),
{
    if s.len() > 0 {
        lemma_scan_nonempty(s.drop_last());
        let p = spec_scan(s.drop_last());
        assert forall|i: int| 0 <= i < spec_scan(s).0.len() implies (#[trigger] spec_scan(s).0[i]).len() > 0 by {
            if i < p.0.len() {
                assert(spec_scan(s).0[i] == p.0[i]);
            }
        }
    }
}

/// No line of [spec_lines] is empty.
pub proof fn lemma_lines_nonempty(s: Seq<char>)
    ensures
        forall|i: int| 0 <= i < spec_lines(s).len() ==> (#[trigger] spec_lines(s)[i]).len() > 0,
{
    lemma_scan_nonempty(s);
    let p = spec_scan(s);
    assert forall|i: int| 0 <= i < spec_lines(s).len() implies (#[trigger] spec_lines(s)[i]).len() > 0 by {
        if i < p.0.len() {
            assert(spec_lines(s)[i] == p.0[i]);
        }
    }
}

} // verus!
