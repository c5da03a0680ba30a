//! From program text to token lines.

use crate::grammar::Source;
use vstd::prelude::*;

verus! {

/// The pieces of `s` between its line feeds, in order: one more piece than
/// there are line feeds, each without the line feed that ends it.
pub open spec fn pieces(s: Seq<char>) -> Seq<Seq<char>>
    decreases s.len(),
{
    if s.len() == 0 {
        seq![Seq::empty()]
    } else {
        let before = pieces(s.drop_last());
        if s.last() == '\n' {
            before.push(Seq::empty())
        } else {
            before.drop_last().push(before.last().push(s.last()))
        }
    }
}

/// The words of `line` as `str::split_whitespace` of the standard library
/// yields them: the runs of `line` that hold no Unicode white space, in
/// order. Which characters are white space is the standard library's
/// matter; all that is claimed here is that the words depend on the
/// characters of the line alone.
pub uninterp spec fn words(line: Seq<char>) -> Seq<Seq<char>>;

/// Calls `str::split` with the line feed as separator and collects what it
/// yields. The pieces are those between the line feeds of `source`, as
/// [`pieces`] states them. Not verified: the contract is taken from the
/// documentation of `str::split`.
#[verifier::external_body]
fn split_lines<'a>(source: &'a str) -> (lines: Vec<&'a str>)
    ensures
        lines.deep_view() == pieces(source@),
{
    source.split('\n').collect()
}

/// Calls `str::split_whitespace` and collects what it yields. The result is
/// named [`words`], and nothing more is claimed of it. Not verified.
#[verifier::external_body]
fn split_words<'a>(line: &'a str) -> (tokens: Vec<&'a str>)
    ensures
        tokens.deep_view() == words(line@),
{
    line.split_whitespace().collect()
}

/// The token lines of `source`: the words of each of its lines.
pub open spec fn tokens(source: Seq<char>) -> Source {
    pieces(source).map_values(|line: Seq<char>| words(line))
}

/// Splits `source` into lines at its line feeds, and each line into its
/// words. Blank lines and comments are still among the result.
pub fn tokenize<'a>(source: &'a str) -> (lines: Vec<Vec<&'a str>>)
    ensures
        lines.deep_view() == tokens(source@),
{
    let raw = split_lines(source);
    let mut lines: Vec<Vec<&'a str>> = Vec::new();
    let mut i: usize = 0;
    while i < raw.len()
        invariant
            raw.deep_view() == pieces(source@),
            i <= raw@.len(),
            lines@.len() == i,
            forall|k: int| 0 <= k < i ==> (#[trigger] lines@[k]).deep_view() == words(raw@[k]@),
        decreases raw@.len() - i,
    {
        let line = split_words(raw[i]);
        lines.push(line);
        i += 1;
    }
    assert forall|k: int| 0 <= k < lines@.len() implies (#[trigger] lines.deep_view()[k])
        == tokens(source@)[k] by {
        assert(raw.deep_view()[k] == raw@[k]@);
    }
    assert(lines.deep_view() =~= tokens(source@));
    lines
}

} // verus!
