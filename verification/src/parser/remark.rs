//! Remarks, and the blank space and remarks that may stand before a token.

use super::basis::{is_space, space};
use vstd::prelude::*;

verus! {

/// A comment kept from the source text.
#[derive(Debug, PartialEq, Eq)]
pub enum Remark {
    /// The text between `(*` and `*)`.
    Embedded(String),
    /// The text between `--` and the end of the line.
    Tail(String),
}

/// What a [`Remark`] holds, as a mathematical value.
pub enum RemarkView {
    Embedded(Seq<char>),
    Tail(Seq<char>),
}

impl View for Remark {
    type V = RemarkView;

    open spec fn view(&self) -> RemarkView {
        match self {
            Remark::Embedded(text) => RemarkView::Embedded(text@),
            Remark::Tail(text) => RemarkView::Tail(text@),
        }
    }
}

impl Clone for Remark {
    fn clone(&self) -> (r: Self)
        ensures
            r == *self,
    {
        match self {
            Remark::Embedded(text) => Remark::Embedded(text.clone()),
            Remark::Tail(text) => Remark::Tail(text.clone()),
        }
    }
}

impl RemarkView {
    /// The text of the remark without its delimiters.
    pub open spec fn text(self) -> Seq<char> {
        match self {
            RemarkView::Embedded(text) => text,
            RemarkView::Tail(text) => text,
        }
    }
}

/// The views of a list of remarks, in the same order.
pub open spec fn views(remarks: Seq<Remark>) -> Seq<RemarkView> {
    remarks.map_values(|r: Remark| r@)
}

/// Blank space and remarks at a position: the remarks and where they end.
pub struct Trivia {
    pub remarks: Seq<RemarkView>,
    pub end: int,
}

/// The position of the first `*)` at or after `pos`.
pub open spec fn embedded_close(s: Seq<char>, pos: int) -> Option<int>
    decreases s.len() - pos,
{
    if pos < 0 || pos + 2 > s.len() {
        None
    } else if s[pos] == '*' && s[pos + 1] == ')' {
        Some(pos)
    } else {
        embedded_close(s, pos + 1)
    }
}

/// The position of the first line feed at or after `pos`, or the end of the
/// text.
pub open spec fn line_end(s: Seq<char>, pos: int) -> int
    decreases s.len() - pos,
{
    if 0 <= pos < s.len() && s[pos] != '\n' {
        line_end(s, pos + 1)
    } else {
        pos
    }
}

/// True when an embedded remark opens at `pos`.
pub open spec fn opens_embedded(s: Seq<char>, pos: int) -> bool {
    0 <= pos && pos + 2 <= s.len() && s[pos] == '(' && s[pos + 1] == '*'
}

/// True when a tail remark opens at `pos`.
pub open spec fn opens_tail(s: Seq<char>, pos: int) -> bool {
    0 <= pos && pos + 2 <= s.len() && s[pos] == '-' && s[pos + 1] == '-'
}

/// Skips blank space, embedded remarks and tail remarks from `pos` on, and
/// collects the remarks in the order in which they stand. An embedded remark
/// that is never closed is no remark: the scan stops in front of it.
pub open spec fn spec_trivia(s: Seq<char>, pos: int) -> Trivia
    decreases s.len() - pos,
{
    if pos < 0 || pos >= s.len() {
        Trivia { remarks: Seq::empty(), end: pos }
    } else if is_space(s[pos]) {
        spec_trivia(s, pos + 1)
    } else if opens_embedded(s, pos) {
        match embedded_close(s, pos + 2) {
            Some(close) if pos + 2 <= close && close + 2 <= s.len() => {
                let rest = spec_trivia(s, close + 2);
                Trivia {
                    remarks: seq![RemarkView::Embedded(s.subrange(pos + 2, close))] + rest.remarks,
                    end: rest.end,
                }
            },
            _ => Trivia { remarks: Seq::empty(), end: pos },
        }
    } else if opens_tail(s, pos) {
        let stop = line_end(s, pos + 2);
        if pos + 2 <= stop <= s.len() {
            let rest = spec_trivia(s, stop);
            Trivia {
                remarks: seq![RemarkView::Tail(s.subrange(pos + 2, stop))] + rest.remarks,
                end: rest.end,
            }
        } else {
            Trivia { remarks: Seq::empty(), end: pos }
        }
    } else {
        Trivia { remarks: Seq::empty(), end: pos }
    }
}

/// Where a closing `*)` is found, it lies at or after the start of the search
/// and within the text.
pub proof fn lemma_embedded_close(s: Seq<char>, pos: int)
    requires
        0 <= pos,
    ensures
        embedded_close(s, pos) matches Some(close) ==> pos <= close && close + 2 <= s.len()
            && s[close] == '*' && s[close + 1] == ')',
    decreases s.len() - pos,
{
    if pos + 2 <= s.len() && !(s[pos] == '*' && s[pos + 1] == ')') {
        lemma_embedded_close(s, pos + 1);
    }
}

/// A line ends at or after the start of the search and within the text.
pub proof fn lemma_line_end(s: Seq<char>, pos: int)
    requires
        0 <= pos <= s.len(),
    ensures
        pos <= line_end(s, pos) <= s.len(),
    decreases s.len() - pos,
{
    if pos < s.len() && s[pos] != '\n' {
        lemma_line_end(s, pos + 1);
    }
}

/// Skipping never moves backwards nor past the end, and what follows is
/// neither blank space nor a remark.
pub proof fn lemma_trivia(s: Seq<char>, pos: int)
    requires
        0 <= pos <= s.len(),
    ensures
        pos <= spec_trivia(s, pos).end <= s.len(),
        spec_trivia(s, spec_trivia(s, pos).end) == (Trivia {
            remarks: Seq::empty(),
            end: spec_trivia(s, pos).end,
        }),
    decreases s.len() - pos,
{
    if pos >= s.len() {
    } else if is_space(s[pos]) {
        lemma_trivia(s, pos + 1);
    } else if opens_embedded(s, pos) {
        lemma_embedded_close(s, pos + 2);
        match embedded_close(s, pos + 2) {
            Some(close) => {
                lemma_trivia(s, close + 2);
            },
            None => {},
        }
    } else if opens_tail(s, pos) {
        lemma_line_end(s, pos + 2);
        lemma_trivia(s, line_end(s, pos + 2));
    }
}

/// `String::push`: the character is appended to the text.
#[verifier::external_body]
pub(crate) fn push_char(text: &mut String, c: char)
    ensures
        final(text)@ == old(text)@.push(c),
{
    text.push(c)
}

/// The characters of `text[from..to]` as a string.
pub fn text_of(text: &[char], from: usize, to: usize) -> (r: String)
    requires
        from <= to <= text.len(),
    ensures
        r@ == text@.subrange(from as int, to as int),
{
    let mut r = String::new();
    let mut i: usize = from;
    while i < to
        invariant
            from <= i <= to <= text.len(),
            r@ == text@.subrange(from as int, i as int),
        decreases to - i,
    {
        push_char(&mut r, text[i]);
        assert(text@.subrange(from as int, i + 1) =~= text@.subrange(
            from as int,
            i as int,
        ).push(text@[i as int]));
        i += 1;
    }
    r
}

/// Finds the first `*)` at or after `pos`.
pub fn find_close(text: &[char], pos: usize) -> (r: Option<usize>)
    requires
        pos <= text.len(),
    ensures
        match embedded_close(text@, pos as int) {
            Some(close) => r == Some(close as usize) && pos <= close && close + 2 <= text.len(),
            None => r is None,
        },
{
    let mut i: usize = pos;
    while text.len() - i >= 2
        invariant
            pos <= i <= text.len(),
            embedded_close(text@, pos as int) == embedded_close(text@, i as int),
        decreases text.len() - i,
    {
        if text[i] == '*' && text[i + 1] == ')' {
            return Some(i);
        }
        i += 1;
    }
    None
}

/// Finds the end of the line that holds `pos`.
pub fn find_line_end(text: &[char], pos: usize) -> (end: usize)
    requires
        pos <= text.len(),
    ensures
        end == line_end(text@, pos as int),
        pos <= end <= text.len(),
{
    let mut i: usize = pos;
    while i < text.len() && text[i] != '\n'
        invariant
            pos <= i <= text.len(),
            line_end(text@, pos as int) == line_end(text@, i as int),
        decreases text.len() - i,
    {
        i += 1;
    }
    i
}

/// Skips blank space and remarks from `pos` on and returns the remarks with
/// the position of the first character that belongs to neither.
pub fn skip_trivia(text: &[char], pos: usize) -> (r: (Vec<Remark>, usize))
    requires
        pos <= text.len(),
    ensures
        views(r.0@) == spec_trivia(text@, pos as int).remarks,
        r.1 == spec_trivia(text@, pos as int).end,
        pos <= r.1 <= text.len(),
{
    let mut remarks: Vec<Remark> = Vec::new();
    let mut i: usize = pos;
    loop
        invariant
            pos <= i <= text.len(),
            spec_trivia(text@, pos as int).end == spec_trivia(text@, i as int).end,
            spec_trivia(text@, pos as int).remarks == views(remarks@) + spec_trivia(
                text@,
                i as int,
            ).remarks,
        ensures
            pos <= i <= text.len(),
            spec_trivia(text@, pos as int).end == i,
            spec_trivia(text@, pos as int).remarks == views(remarks@),
        decreases text.len() - i,
    {
        if i >= text.len() {
            break;
        }
        let c = text[i];
        if space(c) {
            i += 1;
        } else if c == '(' && i + 1 < text.len() && text[i + 1] == '*' {
            match find_close(text, i + 2) {
                Some(close) => {
                    let ghost before = views(remarks@);
                    let body = text_of(text, i + 2, close);
                    remarks.push(Remark::Embedded(body));
                    assert(views(remarks@) =~= before.push(
                        RemarkView::Embedded(text@.subrange(i + 2, close as int)),
                    ));
                    i = close + 2;
                },
                None => {
                    break;
                },
            }
        } else if c == '-' && i + 1 < text.len() && text[i + 1] == '-' {
            let stop = find_line_end(text, i + 2);
            let ghost before = views(remarks@);
            let body = text_of(text, i + 2, stop);
            remarks.push(Remark::Tail(body));
            assert(views(remarks@) =~= before.push(
                RemarkView::Tail(text@.subrange(i + 2, stop as int)),
            ));
            i = stop;
        } else {
            break;
        }
    }
    (remarks, i)
}

} // verus!
