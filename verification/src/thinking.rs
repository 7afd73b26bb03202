//! Separating a model's reasoning from its answer.
//!
//! A model may open its output with a reasoning segment between a start
//! marker and an end marker. What is shown while the answer streams is the
//! output as it came; what is kept in the history is the output without the
//! segment, so that later requests stay short.

use crate::text::{
    chars_of, find, first_match, first_match_at, lemma_first_match_is_match,
    lemma_first_match_none, lemma_first_match_unique, matches_at, no_match_from, trim_bounds, trimmed,
};
use vstd::prelude::*;
use vstd::string::*;

verus! {

/// The marker that opens a reasoning segment.
pub const START_MARKER: &'static str = "<think>";

/// The marker that closes a reasoning segment.
pub const END_MARKER: &'static str = "</think>";

/// Where a reasoning segment stands in a text: the index at which its start
/// marker begins and the index at which its end marker begins.
pub struct Span {
    pub start: int,
    pub close: int,
}

/// The reasoning segment of `text`: from the first start marker to the first
/// end marker that follows it. A start marker that no end marker follows
/// opens no segment.
pub open spec fn marked_span(text: Seq<char>) -> Option<Span> {
    match first_match(text, START_MARKER@, 0) {
        Some(start) => match first_match(text, END_MARKER@, start + START_MARKER@.len()) {
            Some(close) => Some(Span { start, close }),
            None => None,
        },
        None => None,
    }
}

/// `text` without its reasoning segment, markers included, and without the
/// white space around what is left; `text` itself where it has no segment.
pub open spec fn stripped(text: Seq<char>) -> Seq<char> {
    match marked_span(text) {
        Some(span) => trimmed(
            text.subrange(0, span.start) + text.subrange(
                span.close + END_MARKER@.len(),
                text.len() as int,
            ),
        ),
        None => text,
    }
}

/// What stands strictly between the markers of the reasoning segment of
/// `text`; nothing where it has no segment.
pub open spec fn reasoning(text: Seq<char>) -> Option<Seq<char>> {
    match marked_span(text) {
        Some(span) => Some(text.subrange(span.start + START_MARKER@.len(), span.close)),
        None => None,
    }
}

/// The reasoning segment of `chars`: the indices at which its two markers
/// begin.
pub fn find_span(chars: &Vec<char>) -> (found: Option<(usize, usize)>)
    ensures
        found is Some <==> marked_span(chars@) is Some,
        found matches Some(at) ==> marked_span(chars@) == Some(
            Span { start: at.0 as int, close: at.1 as int },
        ) && at.0 + START_MARKER@.len() <= at.1 && at.1 + END_MARKER@.len() <= chars.len(),
{
    let open = chars_of(START_MARKER);
    let shut = chars_of(END_MARKER);
    match find(chars, &open, 0) {
        Some(start) => {
            proof {
                lemma_first_match_is_match(chars@, open@, 0, start as int);
                assert(start + open.len() <= chars.len());
            }
            match find(chars, &shut, start + open.len()) {
                Some(close) => {
                    proof {
                        lemma_first_match_is_match(
                            chars@,
                            shut@,
                            start + open.len(),
                            close as int,
                        );
                    }
                    Some((start, close))
                },
                None => None,
            }
        },
        None => None,
    }
}

/// `text` without its reasoning segment: what is kept in the history.
pub fn strip_reasoning(text: &str) -> (kept: String)
    ensures
        kept@ == stripped(text@),
{
    let chars = chars_of(text);
    match find_span(&chars) {
        Some((start, close)) => {
            let shut = chars_of(END_MARKER);
            let before = text.substring_char(0, start);
            let after = text.substring_char(close + shut.len(), chars.len());
            let joined = String::from_str(before).concat(after);
            let rest = chars_of(joined.as_str());
            let (lo, hi) = trim_bounds(&rest);
            String::from_str(joined.as_str().substring_char(lo, hi))
        },
        None => String::from_str(text),
    }
}

/// The reasoning of `text`: what stands between its markers.
pub fn extract_reasoning(text: &str) -> (found: Option<String>)
    ensures
        found is Some <==> reasoning(text@) is Some,
        found matches Some(inner) ==> reasoning(text@) == Some(inner@),
{
    let chars = chars_of(text);
    match find_span(&chars) {
        Some((start, close)) => {
            let open = chars_of(START_MARKER);
            Some(String::from_str(text.substring_char(start + open.len(), close)))
        },
        None => None,
    }
}

/// The part of `text` that the caller asks for: with `is_result`, the text
/// without its reasoning segment, which is the text itself where it has
/// none; without it, the reasoning alone, which is nothing where the text
/// has no segment.
pub fn get_thinking(text: &str, is_result: bool) -> (part: Option<String>)
    ensures
        is_result ==> part is Some && part->0@ == stripped(text@),
        !is_result ==> (part is Some <==> reasoning(text@) is Some),
        !is_result ==> (part matches Some(inner) ==> reasoning(text@) == Some(inner@)),
{
    if is_result {
        Some(strip_reasoning(text))
    } else {
        extract_reasoning(text)
    }
}

/// An end marker cannot begin inside `inner` and reach into the end marker
/// that follows it: no end marker begins before the one that follows an
/// `inner` which holds none.
proof fn lemma_end_marker_is_first(head: Seq<char>, inner: Seq<char>, tail: Seq<char>)
    requires
        no_match_from(inner, END_MARKER@, 0),
    ensures
        first_match_at(
            head + inner + END_MARKER@ + tail,
            END_MARKER@,
            head.len() as int,
            (head.len() + inner.len()) as int,
        ),
{
    reveal_strlit("</think>");
    let shut = END_MARKER@;
    let text = head + inner + shut + tail;
    let close = (head.len() + inner.len()) as int;
    assert(text.subrange(close, close + shut.len()) == shut);
    assert forall|j: int| head.len() <= j < close implies !matches_at(text, shut, j) by {
        if matches_at(text, shut, j) {
            let window = text.subrange(j, j + shut.len());
            if j + shut.len() <= close {
                let at = j - head.len();
                assert(inner.subrange(at, at + shut.len()) == window);
                assert(matches_at(inner, shut, at));
            } else {
                let k = close - j;
                assert(window[k] == text[close]);
                assert(text[close] == shut[0]);
                assert(shut[k] != shut[0]);
            }
        }
    }
}

/// A text made of the start marker, a reasoning that holds no end marker,
/// the end marker and an answer gives back both parts: kept is the answer
/// without the white space around it, and the reasoning is the reasoning.
pub proof fn lemma_split_round_trip(inner: Seq<char>, answer: Seq<char>)
    requires
        no_match_from(inner, END_MARKER@, 0),
    ensures
        stripped(START_MARKER@ + inner + END_MARKER@ + answer) == trimmed(answer),
        reasoning(START_MARKER@ + inner + END_MARKER@ + answer) == Some(inner),
{
    let open = START_MARKER@;
    let shut = END_MARKER@;
    let text = open + inner + shut + answer;
    let close = (open.len() + inner.len()) as int;
    assert(text.subrange(0, open.len() as int) == open);
    assert(first_match_at(text, open, 0, 0));
    lemma_first_match_unique(text, open, 0, 0);
    lemma_end_marker_is_first(open, inner, answer);
    lemma_first_match_unique(text, shut, open.len() as int, close);
    assert(marked_span(text) == Some(Span { start: 0, close }));
    assert(text.subrange(0, 0) + text.subrange(close + shut.len(), text.len() as int) == answer);
    assert(text.subrange(open.len() as int, close) == inner);
}

/// A text made of the start marker and a reasoning that no end marker
/// closes has no segment: it is kept as it is, and no reasoning is found.
pub proof fn lemma_unclosed_segment(inner: Seq<char>)
    requires
        no_match_from(inner, END_MARKER@, 0),
    ensures
        stripped(START_MARKER@ + inner) == START_MARKER@ + inner,
        reasoning(START_MARKER@ + inner) is None,
{
    let open = START_MARKER@;
    let shut = END_MARKER@;
    let text = open + inner;
    assert(text.subrange(0, open.len() as int) == open);
    assert(first_match_at(text, open, 0, 0));
    lemma_first_match_unique(text, open, 0, 0);
    assert forall|j: int| open.len() <= j implies !matches_at(text, shut, j) by {
        if matches_at(text, shut, j) {
            let at = j - open.len();
            assert(inner.subrange(at, at + shut.len()) == text.subrange(j, j + shut.len()));
            assert(matches_at(inner, shut, at));
        }
    }
    assert(no_match_from(text, shut, open.len() as int));
    lemma_first_match_none(text, shut, open.len() as int);
}

/// A text that holds no start marker has no segment: it is kept as it is,
/// and no reasoning is found.
pub proof fn lemma_no_segment(text: Seq<char>)
    requires
        no_match_from(text, START_MARKER@, 0),
    ensures
        stripped(text) == text,
        reasoning(text) is None,
{
    lemma_first_match_none(text, START_MARKER@, 0);
}

} // verus!
