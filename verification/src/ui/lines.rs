//! Lines of text.

use crate::util::text;
use vstd::prelude::*;

verus! {

/// How a line is meant.
#[derive(Debug, Clone, Copy, PartialEq, Eq, Structural)]
pub enum Tone {
    Plain,
    Small,
    Good,
    Caution,
    Bad,
    Note,
    Linked,
    Muted,
}

/// A line of text.
#[derive(Debug)]
pub struct Line {
    pub tone: Tone,
    pub words: String,
}

impl View for Line {
    type V = (Tone, Seq<char>);

    open spec fn view(&self) -> (Tone, Seq<char>) {
        (self.tone, self.words@)
    }
}

/// Lines by their contents.
pub open spec fn line_views(lines: Seq<Line>) -> Seq<(Tone, Seq<char>)> {
    lines.map_values(|line: Line| line@)
}

/// One line.
pub open spec fn said(tone: Tone, words: Seq<char>) -> Seq<(Tone, Seq<char>)> {
    seq![(tone, words)]
}

/// One line where `holds`, none otherwise.
pub open spec fn said_if(holds: bool, tone: Tone, words: Seq<char>) -> Seq<(Tone, Seq<char>)> {
    if holds {
        said(tone, words)
    } else {
        seq![]
    }
}

/// An error after its introduction, where there is one.
pub open spec fn said_error(words: Seq<char>, error: Option<String>) -> Seq<(Tone, Seq<char>)> {
    match error {
        Some(message) => said(Tone::Bad, words + message@),
        None => seq![],
    }
}

/// Adds a line.
pub fn say(lines: &mut Vec<Line>, tone: Tone, words: String)
    ensures
        line_views(final(lines)@) == line_views(old(lines)@) + said(tone, words@),
{
    let ghost before = line_views(lines@);
    let ghost what = words@;
    lines.push(Line { tone, words });
    assert(line_views(lines@) =~= before + said(tone, what));
}

/// Adds a fixed line.
pub fn say_str(lines: &mut Vec<Line>, tone: Tone, words: &str)
    ensures
        line_views(final(lines)@) == line_views(old(lines)@) + said(tone, words@),
{
    say(lines, tone, words.to_owned());
}

/// Adds an error after its introduction, where there is one.
pub fn say_error(lines: &mut Vec<Line>, words: &str, error: &Option<String>)
    ensures
        line_views(final(lines)@) == line_views(old(lines)@) + said_error(words@, *error),
{
    match error {
        Some(message) => {
            say(lines, Tone::Bad, text::joined(words, message.as_str()));
        },
        None => {
            assert(line_views(lines@) + said_error(words@, *error) =~= line_views(lines@));
        },
    }
}

/// One fraction: `a/b`.
pub open spec fn fraction(a: nat, b: nat) -> Seq<char> {
    text::decimal(a) + "/"@ + text::decimal(b)
}

/// One fraction: `a/b`.
pub fn fraction_text(a: u64, b: u64) -> (r: String)
    ensures
        r@ == fraction(a as nat, b as nat),
{
    let left = text::decimal_text(a);
    let right = text::decimal_text(b);
    text::joined3(left.as_str(), "/", right.as_str())
}

/// A line is said exactly where it is to be; an error is said with its message, in a bad tone,
/// exactly where there is one.
pub proof fn lines_are_said_where_they_hold(
    holds: bool,
    tone: Tone,
    words: Seq<char>,
    error: Option<String>,
)
    ensures
        said_if(holds, tone, words).len() == if holds {
            1nat
        } else {
            0nat
        },
        holds ==> said_if(holds, tone, words)[0] == (tone, words),
        error is None <==> said_error(words, error).len() == 0,
        error matches Some(message) ==> {
            let line = said_error(words, error)[0];
            said_error(words, error).len() == 1 && line.0 == Tone::Bad && line.1 == words
                + message@
        },
{
}

/// Lines follow one another as they were said.
pub proof fn lines_keep_their_order(a: Seq<Line>, b: Seq<Line>, i: int)
    requires
        0 <= i < a.len(),
    ensures
        line_views(a + b) == line_views(a) + line_views(b),
        line_views(a).len() == a.len(),
        line_views(a)[i] == (a[i].tone, a[i].words@),
{
    assert(line_views(a + b) =~= line_views(a) + line_views(b));
}

/// A fraction reads as its numerator, a stroke and its denominator.
pub proof fn fractions_are_read_apart(a: nat, b: nat)
    ensures
        ({
            let words = fraction(a, b);
            let n = text::decimal(a).len() as int;
            &&& words.take(n) == text::decimal(a)
            &&& words[n] == '/'
            &&& words.skip(n + 1) == text::decimal(b)
        }),
{
    reveal_strlit("/");
    let words = fraction(a, b);
    let n = text::decimal(a).len() as int;
    assert(words.take(n) =~= text::decimal(a));
    assert(words.skip(n + 1) =~= text::decimal(b));
}

} // verus!
