//! Searching and trimming text, character by character.
use vstd::prelude::*;
use vstd::string::{StrSliceExecFns, StringExecFns};

verus! {

/// The characters of `text`.
pub fn chars_of(text: &str) -> (chars: Vec<char>)
    ensures
        chars@ == text@,
{
    let mut chars: Vec<char> = Vec::new();
    for c in it: text.chars()
        invariant
            it.seq() == text@,
            chars@ == it.seq().take(it.index() as int),
    {
        chars.push(c);
    }
    chars
}

/// The characters of `chars` from index `from` up to index `to`.
pub fn slice_of(chars: &Vec<char>, from: usize, to: usize) -> (slice: Vec<char>)
    requires
        from <= to <= chars@.len(),
    ensures
        slice@ == chars@.subrange(from as int, to as int),
{
    let mut slice: Vec<char> = Vec::new();
    let mut at: usize = from;
    while at < to
        invariant
            from <= at <= to <= chars@.len(),
            slice@ == chars@.subrange(from as int, at as int),
        decreases to - at,
    {
        slice.push(chars[at]);
        at += 1;
    }
    slice
}

/// `part` stands in `text` at index `at`.
pub open spec fn occurs_at(text: Seq<char>, part: Seq<char>, at: int) -> bool {
    &&& 0 <= at
    &&& at + part.len() <= text.len()
    &&& text.subrange(at, at + part.len()) == part
}

/// The first index at or behind `from` at which `part` stands in `text`.
pub open spec fn first_from(text: Seq<char>, part: Seq<char>, from: int) -> Option<int>
    decreases text.len() + 1 - from,
{
    if from < 0 || from + part.len() > text.len() {
        None
    } else if occurs_at(text, part, from) {
        Some(from)
    } else {
        first_from(text, part, from + 1)
    }
}

/// The first index at which `part` stands in `text`.
pub open spec fn first_occurrence(text: Seq<char>, part: Seq<char>) -> Option<int> {
    first_from(text, part, 0)
}

/// `text` with the first occurrence of `part` replaced by `with`; `text`
/// itself where `part` does not occur.
pub open spec fn replace_first(text: Seq<char>, part: Seq<char>, with: Seq<char>) -> Seq<char> {
    match first_occurrence(text, part) {
        Some(at) => text.subrange(0, at) + with + text.subrange(at + part.len(), text.len() as int),
        None => text,
    }
}

/// An occurrence found from `from` on lies at or behind `from`, and nothing
/// found means that `part` stands nowhere from `from` on.
pub proof fn lemma_first_from(text: Seq<char>, part: Seq<char>, from: int)
    requires
        0 <= from,
    ensures
        match first_from(text, part, from) {
            Some(at) => from <= at && occurs_at(text, part, at) && forall|earlier: int|
                from <= earlier < at ==> !occurs_at(text, part, earlier),
            None => forall|any: int| from <= any ==> !occurs_at(text, part, any),
        },
    decreases text.len() + 1 - from,
{
    if from + part.len() <= text.len() && !occurs_at(text, part, from) {
        lemma_first_from(text, part, from + 1);
    }
}

/// Whether `part` stands in `text` at index `at`.
pub fn matches_at(text: &Vec<char>, part: &Vec<char>, at: usize) -> (found: bool)
    ensures
        found == occurs_at(text@, part@, at as int),
{
    if part.len() > text.len() || at > text.len() - part.len() {
        return false;
    }
    let mut k: usize = 0;
    while k < part.len()
        invariant
            k <= part.len(),
            at + part.len() <= text.len(),
            forall|j: int| 0 <= j < k ==> text@[at + j] == part@[j],
        decreases part.len() - k,
    {
        if text[at + k] != part[k] {
            assert(text@.subrange(at as int, at + part.len())[k as int] != part@[k as int]);
            return false;
        }
        k += 1;
    }
    assert(text@.subrange(at as int, at + part.len()) =~= part@);
    true
}

/// The first index at or behind `from` at which `part` stands in `text`.
pub fn find_from(text: &Vec<char>, part: &Vec<char>, from: usize) -> (found: Option<usize>)
    ensures
        match found {
            Some(at) => first_from(text@, part@, from as int) == Some(at as int) && from <= at
                && at + part@.len() <= text@.len(),
            None => first_from(text@, part@, from as int) is None,
        },
{
    if part.len() > text.len() || from > text.len() - part.len() {
        return None;
    }
    let last = text.len() - part.len();
    let mut at: usize = from;
    loop
        invariant
            from <= at <= last,
            last == text.len() - part.len(),
            part.len() <= text.len(),
            first_from(text@, part@, from as int) == first_from(text@, part@, at as int),
        decreases last - at,
    {
        if matches_at(text, part, at) {
            return Some(at);
        }
        if at == last {
            assert(first_from(text@, part@, at + 1) is None);
            return None;
        }
        at += 1;
    }
}

/// The first index at which `part` stands in `text`.
pub fn find(text: &Vec<char>, part: &Vec<char>) -> (found: Option<usize>)
    ensures
        match found {
            Some(at) => first_occurrence(text@, part@) == Some(at as int) && at + part@.len()
                <= text@.len(),
            None => first_occurrence(text@, part@) is None,
        },
{
    find_from(text, part, 0)
}

/// `text` from index `from` on, with each occurrence of `part` replaced by
/// `with`. Occurrences are taken from left to right and do not overlap. An
/// empty `part` occurs before each character and at the end.
pub open spec fn replaced_from(text: Seq<char>, part: Seq<char>, with: Seq<char>, from: int) -> Seq<
    char,
>
    decreases text.len() - from,
{
    if from < 0 || from > text.len() {
        Seq::empty()
    } else if part.len() == 0 {
        if from == text.len() {
            with
        } else {
            with + text.subrange(from, from + 1) + replaced_from(text, part, with, from + 1)
        }
    } else {
        match first_from(text, part, from) {
            Some(at) => if from <= at && at + part.len() <= text.len() {
                text.subrange(from, at) + with + replaced_from(text, part, with, at + part.len())
            } else {
                text.subrange(from, text.len() as int)
            },
            None => text.subrange(from, text.len() as int),
        }
    }
}

/// `text` with each occurrence of `part` replaced by `with`. Occurrences are
/// taken from left to right and do not overlap. An empty `part` occurs
/// before each character and at the end.
pub open spec fn replaced(text: Seq<char>, part: Seq<char>, with: Seq<char>) -> Seq<char> {
    replaced_from(text, part, with, 0)
}

/// `text` with each occurrence of `part` replaced by `with`.
pub fn replace_all(text: &str, part: &str, with: &str) -> (out: String)
    ensures
        out@ == replaced(text@, part@, with@),
{
    let chars = chars_of(text);
    let needle = chars_of(part);
    let length = chars.len();
    let mut out = String::new();
    let mut from: usize = 0;
    if needle.len() == 0 {
        while from < length
            invariant
                part@.len() == 0,
                length == text@.len(),
                from <= length,
                out@ + replaced_from(text@, part@, with@, from as int) == replaced(
                    text@,
                    part@,
                    with@,
                ),
            decreases length - from,
        {
            let ghost before = out@;
            out.append(with);
            out.append(text.substring_char(from, from + 1));
            assert(out@ + replaced_from(text@, part@, with@, from + 1) =~= before + replaced_from(
                text@,
                part@,
                with@,
                from as int,
            ));
            from += 1;
        }
        out.append(with);
        return out;
    }
    loop
        invariant
            chars@ == text@,
            needle@ == part@,
            part@.len() > 0,
            length == text@.len(),
            from <= length,
            out@ + replaced_from(text@, part@, with@, from as int) == replaced(
                text@,
                part@,
                with@,
            ),
        decreases length - from,
    {
        match find_from(&chars, &needle, from) {
            Some(at) => {
                let ghost before = out@;
                out.append(text.substring_char(from, at));
                out.append(with);
                assert(out@ + replaced_from(text@, part@, with@, at + part@.len()) =~= before
                    + replaced_from(text@, part@, with@, from as int));
                from = at + needle.len();
            },
            None => {
                out.append(text.substring_char(from, length));
                return out;
            },
        }
    }
}

/// The last index at or before `upto` at which `part` stands in `text`.
pub open spec fn last_upto(text: Seq<char>, part: Seq<char>, upto: int) -> Option<int>
    decreases upto + 1,
{
    if upto < 0 {
        None
    } else if occurs_at(text, part, upto) {
        Some(upto)
    } else {
        last_upto(text, part, upto - 1)
    }
}

/// The last index at which `part` stands in `text`.
pub open spec fn last_occurrence(text: Seq<char>, part: Seq<char>) -> Option<int> {
    last_upto(text, part, text.len() - part.len())
}

/// An occurrence found up to `upto` lies at or before `upto`, and nothing
/// found means that `part` stands nowhere up to `upto`.
pub proof fn lemma_last_upto(text: Seq<char>, part: Seq<char>, upto: int)
    ensures
        match last_upto(text, part, upto) {
            Some(at) => at <= upto && occurs_at(text, part, at) && forall|later: int|
                at < later <= upto ==> !occurs_at(text, part, later),
            None => forall|any: int| any <= upto ==> !occurs_at(text, part, any),
        },
    decreases upto + 1,
{
    if upto >= 0 && !occurs_at(text, part, upto) {
        lemma_last_upto(text, part, upto - 1);
    }
}

/// The last index at which `part` stands in `text`.
pub fn find_last(text: &Vec<char>, part: &Vec<char>) -> (found: Option<usize>)
    ensures
        match found {
            Some(at) => last_occurrence(text@, part@) == Some(at as int) && at + part@.len()
                <= text@.len(),
            None => last_occurrence(text@, part@) is None,
        },
{
    if part.len() > text.len() {
        return None;
    }
    let mut at: usize = text.len() - part.len();
    loop
        invariant
            at <= text.len() - part.len(),
            part.len() <= text.len(),
            last_occurrence(text@, part@) == last_upto(text@, part@, at as int),
        decreases at,
    {
        if matches_at(text, part, at) {
            return Some(at);
        }
        if at == 0 {
            assert(last_upto(text@, part@, -1) is None);
            return None;
        }
        at -= 1;
    }
}

/// Whether a character is white space: whether it is one of the 25
/// characters that have Unicode's property `White_Space`.
pub open spec fn white_space(c: char) -> bool {
    let code = c as u32;
    ||| 0x0009 <= code <= 0x000D
    ||| code == 0x0020
    ||| code == 0x0085
    ||| code == 0x00A0
    ||| code == 0x1680
    ||| 0x2000 <= code <= 0x200A
    ||| code == 0x2028
    ||| code == 0x2029
    ||| code == 0x202F
    ||| code == 0x205F
    ||| code == 0x3000
}

/// Whether a character is white space.
pub fn is_whitespace(c: char) -> (white: bool)
    ensures
        white == white_space(c),
{
    let code = c as u32;
    (0x0009 <= code && code <= 0x000D) || code == 0x0020 || code == 0x0085 || code == 0x00A0
        || code == 0x1680 || (0x2000 <= code && code <= 0x200A) || code == 0x2028 || code
        == 0x2029 || code == 0x202F || code == 0x205F || code == 0x3000
}

/// For each character of `text`, whether it is white space.
pub open spec fn whiteness(text: Seq<char>) -> Seq<bool> {
    text.map_values(|c: char| white_space(c))
}

/// For each character of `text`, whether it is white space.
pub fn whiteness_of(text: &Vec<char>) -> (white: Vec<bool>)
    ensures
        white@ == whiteness(text@),
{
    let mut white: Vec<bool> = Vec::new();
    let mut at: usize = 0;
    while at < text.len()
        invariant
            at <= text.len(),
            white@ == whiteness(text@.take(at as int)),
        decreases text.len() - at,
    {
        white.push(is_whitespace(text[at]));
        assert(whiteness(text@.take(at + 1)) =~= whiteness(text@.take(at as int)).push(
            white_space(text@[at as int]),
        ));
        at += 1;
    }
    assert(text@.take(text.len() as int) =~= text@);
    white
}

/// How many marks at the start of `white` are set.
pub open spec fn leading(white: Seq<bool>) -> nat
    decreases white.len(),
{
    if white.len() > 0 && white[0] {
        1 + leading(white.drop_first())
    } else {
        0
    }
}

/// How many marks at the end of `white` are set.
pub open spec fn trailing(white: Seq<bool>) -> nat
    decreases white.len(),
{
    if white.len() > 0 && white.last() {
        1 + trailing(white.drop_last())
    } else {
        0
    }
}

/// Where the text without its white margins starts and ends, given for each
/// character whether it is white. For a text that is all white, both are
/// its length.
pub open spec fn trimmed_span(white: Seq<bool>) -> (int, int) {
    if leading(white) == white.len() {
        (white.len() as int, white.len() as int)
    } else {
        (leading(white) as int, white.len() - trailing(white))
    }
}

/// `text` without the white space at its start and at its end.
pub open spec fn trimmed(text: Seq<char>) -> Seq<char> {
    let span = trimmed_span(whiteness(text));
    text.subrange(span.0, span.1)
}

/// The leading marks are set, and the mark behind them, if there is one, is
/// not.
pub proof fn lemma_leading_marks(white: Seq<bool>)
    ensures
        leading(white) <= white.len(),
        forall|i: int| 0 <= i < leading(white) ==> white[i],
        leading(white) < white.len() ==> !white[leading(white) as int],
    decreases white.len(),
{
    if white.len() > 0 && white[0] {
        let rest = white.drop_first();
        lemma_leading_marks(rest);
        assert forall|i: int| 0 <= i < leading(white) implies white[i] by {
            if i > 0 {
                assert(rest[i - 1] == white[i]);
            }
        }
        if leading(white) < white.len() {
            assert(rest[leading(rest) as int] == white[leading(white) as int]);
        }
    }
}

/// The trailing marks are set, and the mark before them, if there is one, is
/// not.
pub proof fn lemma_trailing_marks(white: Seq<bool>)
    ensures
        trailing(white) <= white.len(),
        forall|i: int| white.len() - trailing(white) <= i < white.len() ==> white[i],
        trailing(white) < white.len() ==> !white[white.len() - trailing(white) - 1],
    decreases white.len(),
{
    if white.len() > 0 && white.last() {
        let rest = white.drop_last();
        lemma_trailing_marks(rest);
        assert forall|i: int| white.len() - trailing(white) <= i < white.len() implies white[i] by {
            if i < rest.len() {
                assert(rest[i] == white[i]);
            }
        }
        if trailing(white) < white.len() {
            assert(rest[rest.len() - trailing(rest) - 1] == white[white.len() - trailing(white)
                - 1]);
        }
    }
}

/// Trimming takes white space away and nothing else, and all of it that
/// stands at the ends: what is cut off is white, and what is left neither
/// starts nor ends with a white character.
pub proof fn lemma_trimmed_has_no_white_margin(text: Seq<char>)
    ensures
        0 <= trimmed_span(whiteness(text)).0 <= trimmed_span(whiteness(text)).1 <= text.len(),
        forall|i: int| 0 <= i < trimmed_span(whiteness(text)).0 ==> white_space(#[trigger] text[i]),
        forall|i: int|
            trimmed_span(whiteness(text)).1 <= i < text.len() ==> white_space(#[trigger] text[i]),
        trimmed(text).len() > 0 ==> !white_space(trimmed(text).first()) && !white_space(
            trimmed(text).last(),
        ),
{
    let white = whiteness(text);
    lemma_leading_marks(white);
    lemma_trailing_marks(white);
    let span = trimmed_span(white);
    if leading(white) < white.len() {
        let first = leading(white) as int;
        assert(!white[first]);
        if white.len() - trailing(white) <= first {
            assert(white[first]);
        }
    }
    assert forall|i: int| 0 <= i < span.0 implies white_space(#[trigger] text[i]) by {
        assert(white[i] == white_space(text[i]));
    }
    assert forall|i: int| span.1 <= i < text.len() implies white_space(#[trigger] text[i]) by {
        assert(white[i] == white_space(text[i]));
    }
    if trimmed(text).len() > 0 {
        assert(white[span.0] == white_space(text[span.0]));
        assert(white[span.1 - 1] == white_space(text[span.1 - 1]));
    }
}

/// The marks before index `count` are set and the one at `count`, if there
/// is one, is not: then `count` marks lead.
pub proof fn lemma_leading(white: Seq<bool>, count: int)
    requires
        0 <= count <= white.len(),
        forall|i: int| 0 <= i < count ==> white[i],
        count < white.len() ==> !white[count],
    ensures
        leading(white) == count,
    decreases white.len(),
{
    if count > 0 {
        let rest = white.drop_first();
        assert forall|i: int| 0 <= i < count - 1 implies rest[i] by {
            assert(rest[i] == white[i + 1]);
        }
        if count - 1 < rest.len() {
            assert(rest[count - 1] == white[count]);
        }
        lemma_leading(rest, count - 1);
    }
}

/// The marks from index `white.len() - count` on are set and the one before,
/// if there is one, is not: then `count` marks trail.
pub proof fn lemma_trailing(white: Seq<bool>, count: int)
    requires
        0 <= count <= white.len(),
        forall|i: int| white.len() - count <= i < white.len() ==> white[i],
        count < white.len() ==> !white[white.len() - count - 1],
    ensures
        trailing(white) == count,
    decreases white.len(),
{
    if count > 0 {
        let rest = white.drop_last();
        assert forall|i: int| rest.len() - (count - 1) <= i < rest.len() implies rest[i] by {
            assert(rest[i] == white[i]);
        }
        if count - 1 < rest.len() {
            assert(rest[rest.len() - (count - 1) - 1] == white[white.len() - count - 1]);
        }
        lemma_trailing(rest, count - 1);
    }
}

/// Where the text without its white margins starts and ends, given for each
/// character whether it is white.
pub fn trim_span(white: &Vec<bool>) -> (span: (usize, usize))
    ensures
        (span.0 as int, span.1 as int) == trimmed_span(white@),
        span.0 <= span.1 <= white@.len(),
{
    let mut start: usize = 0;
    while start < white.len() && white[start]
        invariant
            start <= white.len(),
            forall|i: int| 0 <= i < start ==> white@[i],
        decreases white.len() - start,
    {
        start += 1;
    }
    proof {
        lemma_leading(white@, start as int);
    }
    if start == white.len() {
        return (start, start);
    }
    let mut end: usize = white.len();
    while end > start && white[end - 1]
        invariant
            start < white.len(),
            !white@[start as int],
            start <= end <= white.len(),
            forall|i: int| end <= i < white.len() ==> white@[i],
        decreases end,
    {
        end -= 1;
    }
    proof {
        lemma_trailing(white@, white.len() - end);
    }
    (start, end)
}

} // verus!
