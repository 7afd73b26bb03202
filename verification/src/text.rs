//! Small operations on text that the rest of the library shares.

use vstd::prelude::*;
use vstd::string::*;

verus! {

/// The characters of `text`, one by one.
pub fn chars_of(text: &str) -> (chars: Vec<char>)
    ensures
        chars@ == text@,
{
    let mut chars: Vec<char> = Vec::new();
    for c in iter: text.chars()
        invariant
            iter.seq() == text@,
            chars@ == iter.seq().take(iter.index() as int),
    {
        chars.push(c);
    }
    chars
}

/// Whether two string slices hold the same characters.
pub fn same_text(left: &str, right: &str) -> (same: bool)
    ensures
        same == (left@ == right@),
{
    let ours = chars_of(left);
    let theirs = chars_of(right);
    if ours.len() != theirs.len() {
        return false;
    }
    let mut at: usize = 0;
    while at < ours.len()
        invariant
            at <= ours.len(),
            ours.len() == theirs.len(),
            ours@ == left@,
            theirs@ == right@,
            forall|i: int| 0 <= i < at ==> ours[i] == theirs[i],
        decreases ours.len() - at,
    {
        if ours[at] != theirs[at] {
            assert(left@[at as int] != right@[at as int]);
            return false;
        }
        at = at + 1;
    }
    assert(left@ == right@);
    true
}

/// The texts that `texts` hold, in order.
pub open spec fn text_views(texts: Seq<String>) -> Seq<Seq<char>> {
    texts.map_values(|text: String| text@)
}

/// Whether `c` is white space: a code point with the Unicode property
/// `White_Space`.
pub open spec fn is_space(c: char) -> bool {
    let n = c as u32;
    ||| 0x09 <= n <= 0x0D
    ||| n == 0x20
    ||| n == 0x85
    ||| n == 0xA0
    ||| n == 0x1680
    ||| 0x2000 <= n <= 0x200A
    ||| n == 0x2028
    ||| n == 0x2029
    ||| n == 0x202F
    ||| n == 0x205F
    ||| n == 0x3000
}

/// Whether `c` is white space.
pub fn is_whitespace(c: char) -> (space: bool)
    ensures
        space == is_space(c),
{
    let n: u32 = c as u32;
    (0x09 <= n && n <= 0x0D) || n == 0x20 || n == 0x85 || n == 0xA0 || n == 0x1680 || (0x2000 <= n
        && n <= 0x200A) || n == 0x2028 || n == 0x2029 || n == 0x202F || n == 0x205F || n == 0x3000
}

/// Whether `text` holds nothing but white space.
pub open spec fn is_blank(text: Seq<char>) -> bool {
    forall|i: int| 0 <= i < text.len() ==> is_space(#[trigger] text[i])
}

/// Whether `text` holds nothing but white space.
pub fn blank(text: &str) -> (all_space: bool)
    ensures
        all_space == is_blank(text@),
{
    for c in iter: text.chars()
        invariant
            iter.seq() == text@,
            forall|i: int| 0 <= i < iter.index() ==> is_space(#[trigger] text@[i]),
    {
        if !is_whitespace(c) {
            assert(!is_space(text@[iter.index() as int]));
            return false;
        }
    }
    true
}

/// `text` without the white space that it begins with.
pub open spec fn skip_spaces(text: Seq<char>) -> Seq<char>
    decreases text.len(),
{
    if text.len() > 0 && is_space(text[0]) {
        skip_spaces(text.skip(1))
    } else {
        text
    }
}

/// `text` without the white space that it ends with.
pub open spec fn drop_spaces(text: Seq<char>) -> Seq<char>
    decreases text.len(),
{
    if text.len() > 0 && is_space(text.last()) {
        drop_spaces(text.drop_last())
    } else {
        text
    }
}

/// `text` without the white space around it.
pub open spec fn trimmed(text: Seq<char>) -> Seq<char> {
    drop_spaces(skip_spaces(text))
}

/// The bounds of `chars` without the white space around it.
pub fn trim_bounds(chars: &Vec<char>) -> (bounds: (usize, usize))
    ensures
        bounds.0 <= bounds.1 <= chars.len(),
        chars@.subrange(bounds.0 as int, bounds.1 as int) == trimmed(chars@),
{
    let ghost all = chars@;
    let mut lo: usize = 0;
    let mut hi: usize = chars.len();
    assert(all.subrange(0, hi as int) == all);
    while lo < hi && is_whitespace(chars[lo])
        invariant
            lo <= hi == chars.len(),
            all == chars@,
            skip_spaces(all.subrange(lo as int, hi as int)) == skip_spaces(all),
        decreases hi - lo,
    {
        assert(all.subrange(lo as int, hi as int).skip(1) == all.subrange(lo as int + 1, hi as int));
        lo = lo + 1;
    }
    assert(skip_spaces(all) == all.subrange(lo as int, hi as int));
    while lo < hi && is_whitespace(chars[hi - 1])
        invariant
            lo <= hi <= chars.len(),
            all == chars@,
            drop_spaces(all.subrange(lo as int, hi as int)) == trimmed(all),
        decreases hi - lo,
    {
        assert(all.subrange(lo as int, hi as int).drop_last() == all.subrange(
            lo as int,
            hi as int - 1,
        ));
        hi = hi - 1;
    }
    (lo, hi)
}

/// `text` without the white space around it.
pub fn trim(text: &str) -> (inner: String)
    ensures
        inner@ == trimmed(text@),
{
    let chars = chars_of(text);
    let (lo, hi) = trim_bounds(&chars);
    String::from_str(text.substring_char(lo, hi))
}

/// Whether `pattern` stands in `text` at index `at`.
pub open spec fn matches_at(text: Seq<char>, pattern: Seq<char>, at: int) -> bool {
    &&& 0 <= at
    &&& at + pattern.len() <= text.len()
    &&& text.subrange(at, at + pattern.len()) == pattern
}

/// Whether `at` is the first index from `from` on at which `pattern` stands
/// in `text`.
pub open spec fn first_match_at(text: Seq<char>, pattern: Seq<char>, from: int, at: int) -> bool {
    &&& from <= at
    &&& matches_at(text, pattern, at)
    &&& forall|j: int| from <= j < at ==> !matches_at(text, pattern, j)
}

/// Whether `pattern` stands nowhere in `text` from index `from` on.
pub open spec fn no_match_from(text: Seq<char>, pattern: Seq<char>, from: int) -> bool {
    forall|j: int| from <= j ==> !matches_at(text, pattern, j)
}

/// The first index from `from` on at which `pattern` stands in `text`.
pub open spec fn first_match(text: Seq<char>, pattern: Seq<char>, from: int) -> Option<int> {
    if exists|at: int| first_match_at(text, pattern, from, at) {
        Some(choose|at: int| first_match_at(text, pattern, from, at))
    } else {
        None
    }
}

/// There is at most one first match.
pub proof fn lemma_first_match_unique(
    text: Seq<char>,
    pattern: Seq<char>,
    from: int,
    at: int,
)
    requires
        first_match_at(text, pattern, from, at),
    ensures
        first_match(text, pattern, from) == Some(at),
{
    let chosen = choose|k: int| first_match_at(text, pattern, from, k);
    assert(first_match_at(text, pattern, from, chosen));
    if chosen < at {
        assert(!matches_at(text, pattern, chosen));
    } else if at < chosen {
        assert(!matches_at(text, pattern, at));
    }
}

/// A first match is a match, and the first one.
pub proof fn lemma_first_match_is_match(text: Seq<char>, pattern: Seq<char>, from: int, at: int)
    requires
        first_match(text, pattern, from) == Some(at),
    ensures
        first_match_at(text, pattern, from, at),
{
}

/// Where nothing matches, there is no first match.
pub proof fn lemma_first_match_none(text: Seq<char>, pattern: Seq<char>, from: int)
    requires
        0 <= from,
        no_match_from(text, pattern, from),
    ensures
        first_match(text, pattern, from) is None,
{
}

/// Whether `pattern` stands in `text` at index `at`.
pub fn stands_at(text: &Vec<char>, pattern: &Vec<char>, at: usize) -> (found: bool)
    ensures
        found == matches_at(text@, pattern@, at as int),
{
    if pattern.len() > text.len() || at > text.len() - pattern.len() {
        return false;
    }
    let mut k: usize = 0;
    while k < pattern.len()
        invariant
            k <= pattern.len(),
            at + pattern.len() <= text.len(),
            forall|j: int| 0 <= j < k ==> text@[at + j] == pattern@[j],
        decreases pattern.len() - k,
    {
        if text[at + k] != pattern[k] {
            assert(text@.subrange(at as int, at + pattern.len())[k as int] != pattern@[k as int]);
            return false;
        }
        k = k + 1;
    }
    assert(text@.subrange(at as int, at + pattern.len()) == pattern@);
    true
}

/// The first index from `from` on at which `pattern` stands in `text`.
pub fn find(text: &Vec<char>, pattern: &Vec<char>, from: usize) -> (found: Option<usize>)
    ensures
        found matches Some(at) ==> first_match(text@, pattern@, from as int) == Some(at as int),
        found is None ==> first_match(text@, pattern@, from as int) is None,
{
    if from > text.len() {
        proof {
            assert(no_match_from(text@, pattern@, from as int));
            lemma_first_match_none(text@, pattern@, from as int);
        }
        return None;
    }
    let mut at: usize = from;
    while at < text.len()
        invariant
            from <= at <= text.len(),
            forall|j: int| from <= j < at ==> !matches_at(text@, pattern@, j),
        decreases text.len() - at,
    {
        if stands_at(text, pattern, at) {
            proof {
                lemma_first_match_unique(text@, pattern@, from as int, at as int);
            }
            return Some(at);
        }
        at = at + 1;
    }
    if stands_at(text, pattern, at) {
        proof {
            lemma_first_match_unique(text@, pattern@, from as int, at as int);
        }
        return Some(at);
    }
    proof {
        assert(no_match_from(text@, pattern@, from as int));
        lemma_first_match_none(text@, pattern@, from as int);
    }
    None
}

} // verus!
