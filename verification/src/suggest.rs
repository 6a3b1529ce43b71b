//! Suggestions for the two kinds of warning that can be mended: a link to a
//! passage whose name is close to that of a known passage, and a link with
//! white space around its passage name.
use crate::findings::{Warning, WarningKind};
use crate::sort::{sort_stable, stably_sorted, Rank, Ranked};
use crate::text::{
    chars_of, find, first_occurrence, lemma_first_from, replace_first, slice_of, trim_span, trimmed,
    whiteness_of,
};
use vstd::prelude::*;
use vstd::string::{StrSliceExecFns, StringExecFns};

verus! {

/// The Jaro-Winkler similarity of two texts as `strsim` computes it: a
/// number from 0 to 1, here in the 64 bits of its IEEE 754 double-precision
/// form.
pub uninterp spec fn jaro_winkler_bits(a: Seq<char>, b: Seq<char>) -> u64;

/// `strsim::jaro_winkler`, whose result is handed on bit for bit. That the
/// call returns, and returns the same for the same two texts, is taken on
/// trust; what it returns goes by the name [`jaro_winkler_bits`].
#[verifier::external_body]
fn similarity(a: &str, b: &str) -> (bits: u64)
    ensures
        bits == jaro_winkler_bits(a@, b@),
{
    strsim::jaro_winkler(a, b).to_bits()
}

/// The bits of 0.8, the score that a name has to exceed to be suggested.
pub const THRESHOLD: u64 = 0x3FE9_9999_9999_999A;

/// The bits of positive infinity. Every pattern above it is a NaN or has the
/// sign bit set.
pub const INFINITY: u64 = 0x7FF0_0000_0000_0000;

/// Whether the number with the bits `score` is greater than 0.8.
///
/// Among the patterns up to [`INFINITY`], which are the numbers that are
/// neither negative nor NaN, a greater pattern is a greater number. Of the
/// patterns above it none is a number greater than 0.8.
pub open spec fn is_close(score: u64) -> bool {
    THRESHOLD < score <= INFINITY
}

/// A known name with the score of its similarity to the name asked for.
#[derive(Debug, PartialEq, Eq)]
pub struct Candidate {
    /// The bits of the score.
    pub score: u64,
    /// The name.
    pub name: String,
}

impl Ranked for Candidate {
    open spec fn rank(&self) -> Rank {
        (self.score as int, 0, 0)
    }

    fn ranks_after(&self, other: &Self) -> (after: bool) {
        self.score > other.score
    }
}

/// The test for a candidate whose score is greater than 0.8.
pub open spec fn close() -> spec_fn(Candidate) -> bool {
    |candidate: Candidate| is_close(candidate.score)
}

/// The names of the candidates, in their order.
pub open spec fn names_of(candidates: Seq<Candidate>) -> Seq<String> {
    candidates.map_values(|candidate: Candidate| candidate.name)
}

/// The candidates that score above 0.8, by ascending score: the best one
/// last. Candidates of equal score keep their order.
pub open spec fn suggested(candidates: Seq<Candidate>) -> Seq<Candidate> {
    stably_sorted(candidates.filter(close()))
}

/// Each name with the score of its similarity to `target`.
pub open spec fn scored(target: Seq<char>, names: Seq<String>) -> Seq<Candidate> {
    names.map_values(|name: String| Candidate { score: jaro_winkler_bits(target, name@), name })
}

/// The names of the candidates that score above 0.8, the best one last.
pub fn rank_candidates(candidates: Vec<Candidate>) -> (names: Vec<String>)
    ensures
        names@ == names_of(suggested(candidates@)),
{
    let mut near: Vec<Candidate> = Vec::new();
    for candidate in it: candidates
        invariant
            it.seq() == candidates@,
            near@ == candidates@.take(it.index() as int).filter(close()),
    {
        proof {
            let done = candidates@.take(it.index() as int);
            assert(candidates@.take(it.index() + 1) =~= done.push(candidate));
            done.lemma_filter_push(candidate, close());
        }
        if THRESHOLD < candidate.score && candidate.score <= INFINITY {
            near.push(candidate);
        }
    }
    assert(candidates@.take(candidates@.len() as int) =~= candidates@);
    let sorted = sort_stable(near);
    let mut names: Vec<String> = Vec::new();
    for candidate in it: sorted
        invariant
            it.seq() == sorted@,
            names@ == names_of(sorted@.take(it.index() as int)),
    {
        assert(names_of(sorted@.take(it.index() + 1)) =~= names_of(
            sorted@.take(it.index() as int),
        ).push(candidate.name));
        names.push(candidate.name);
    }
    assert(sorted@.take(sorted@.len() as int) =~= sorted@);
    names
}

/// The names among `possible_values` that are close to `v`: those whose
/// Jaro-Winkler similarity to it is greater than 0.8, by ascending
/// similarity, the closest one last.
pub fn did_you_mean(v: &str, possible_values: &Vec<String>) -> (names: Vec<String>)
    ensures
        names@ == names_of(suggested(scored(v@, possible_values@))),
{
    let mut candidates: Vec<Candidate> = Vec::new();
    let mut at: usize = 0;
    while at < possible_values.len()
        invariant
            at <= possible_values.len(),
            candidates@ == scored(v@, possible_values@.take(at as int)),
        decreases possible_values.len() - at,
    {
        let name = possible_values[at].clone();
        let score = similarity(v, name.as_str());
        candidates.push(Candidate { score, name });
        assert(scored(v@, possible_values@.take(at + 1)) =~= scored(
            v@,
            possible_values@.take(at as int),
        ).push(Candidate { score, name }));
        at += 1;
    }
    assert(possible_values@.take(possible_values@.len() as int) =~= possible_values@);
    rank_candidates(candidates)
}

/// The passage name in what stands between the brackets of a link: what
/// follows the first `|`; without a `|`, what stands before the first `<-`;
/// without that, what follows the first `->`; else all of it.
pub open spec fn link_target(contents: Seq<char>) -> Seq<char> {
    let span = link_target_span(contents);
    contents.subrange(span.0, span.1)
}

/// Where the passage name starts and ends in what stands between the
/// brackets of a link.
pub open spec fn link_target_span(contents: Seq<char>) -> (int, int) {
    match first_occurrence(contents, seq!['|']) {
        Some(at) => (at + 1, contents.len() as int),
        None => match first_occurrence(contents, seq!['<', '-']) {
            Some(at) => (0, at),
            None => match first_occurrence(contents, seq!['-', '>']) {
                Some(at) => (at + 2, contents.len() as int),
                None => (0, contents.len() as int),
            },
        },
    }
}

/// The link with the white space round its passage name taken out: the
/// first occurrence of the passage name as it stands is replaced by the
/// name trimmed.
pub open spec fn repaired_link(link: Seq<char>) -> Seq<char>
    recommends
        link.len() >= 4,
{
    let target = link_target(link.subrange(2, link.len() - 2));
    replace_first(link, target, trimmed(target))
}

/// Where the passage name starts and ends in what stands between the
/// brackets of a link.
pub fn target_span(contents: &Vec<char>) -> (span: (usize, usize))
    ensures
        (span.0 as int, span.1 as int) == link_target_span(contents@),
        span.0 <= span.1 <= contents@.len(),
{
    let pipe = vec!['|'];
    let left = vec!['<', '-'];
    let right = vec!['-', '>'];
    assert(pipe@ =~= seq!['|'] && pipe@.len() == 1);
    assert(left@ =~= seq!['<', '-'] && left@.len() == 2);
    assert(right@ =~= seq!['-', '>'] && right@.len() == 2);
    proof {
        lemma_first_from(contents@, pipe@, 0);
        lemma_first_from(contents@, left@, 0);
        lemma_first_from(contents@, right@, 0);
    }
    let length = contents.len();
    match find(contents, &pipe) {
        Some(at) => (at + 1, length),
        None => match find(contents, &left) {
            Some(at) => (0, at),
            None => match find(contents, &right) {
                Some(at) => (at + 2, length),
                None => (0, length),
            },
        },
    }
}

/// The link with the white space round its passage name taken out.
pub fn repair_link(link: &str) -> (mended: String)
    requires
        link@.len() >= 4,
    ensures
        mended@ == repaired_link(link@),
{
    let chars = chars_of(link);
    let length = chars.len();
    let contents = slice_of(&chars, 2, length - 2);
    let (from, to) = target_span(&contents);
    let target = slice_of(&contents, from, to);
    let white = whiteness_of(&target);
    let (start, end) = trim_span(&white);
    proof {
        lemma_first_from(link@, target@, 0);
        assert(trimmed(target@) =~= link@.subrange(2 + from + start, 2 + from + end));
    }
    match find(&chars, &target) {
        Some(at) => {
            let mut mended = String::from_str(link.substring_char(0, at));
            mended.append(link.substring_char(2 + from + start, 2 + from + end));
            mended.append(link.substring_char(at + target.len(), length));
            mended
        },
        None => String::from_str(link),
    }
}

/// The note that names a passage of similar name.
pub open spec fn similar_name_note(name: Seq<char>) -> Seq<char> {
    "Found passage with similar name: \""@ + name + "\""@
}

/// The note that proposes the mended link.
pub open spec fn replace_note(link: Seq<char>, mended: Seq<char>) -> Seq<char> {
    "Try replacing "@ + link + " with "@ + mended
}

/// A warning about white space in a link carries the link with its
/// brackets: at least four characters.
pub open spec fn holds_link(warning: Warning) -> bool {
    warning.kind is WhitespaceInLink ==> (warning.context matches Some(context)
        ==> context.contents@.len() >= 4)
}

/// The note to a warning, where there is something to suggest.
///
/// A dead link gets the known passage name that is closest to the name it
/// asks for, if one scores above 0.8 and the passage names are known. A link
/// with white space in it gets the mended link, if the warning has a
/// context. No other warning gets a note.
pub open spec fn suggestion_for(warning: Warning, passage_names: Option<Seq<String>>) -> Option<
    Seq<char>,
> {
    match warning.kind {
        WarningKind::DeadLink(dead) => match passage_names {
            Some(names) => {
                let found = names_of(suggested(scored(dead@, names)));
                if found.len() > 0 {
                    Some(similar_name_note(found.last()@))
                } else {
                    None
                }
            },
            None => None,
        },
        WarningKind::WhitespaceInLink => match warning.context {
            Some(context) => Some(replace_note(context.contents@, repaired_link(context.contents@))),
            None => None,
        },
        WarningKind::Other => None,
    }
}

/// The names of a list that may be missing.
pub open spec fn names_known(passage_names: Option<Vec<String>>) -> Option<Seq<String>> {
    match passage_names {
        Some(names) => Some(names@),
        None => None,
    }
}

/// Whether the warning, if it is about white space in a link, carries a
/// link of at least four characters.
pub fn carries_link(warning: &Warning) -> (carries: bool)
    ensures
        carries == holds_link(*warning),
{
    match &warning.kind {
        WarningKind::WhitespaceInLink => match &warning.context {
            Some(context) => context.contents.as_str().unicode_len() >= 4,
            None => true,
        },
        _ => true,
    }
}

/// The note to a warning, where there is something to suggest.
pub fn suggest(warning: &Warning, passage_names: &Option<Vec<String>>) -> (note: Option<String>)
    requires
        holds_link(*warning),
    ensures
        match note {
            Some(note) => suggestion_for(*warning, names_known(*passage_names)) == Some(note@),
            None => suggestion_for(*warning, names_known(*passage_names)) is None,
        },
{
    match &warning.kind {
        WarningKind::DeadLink(dead) => match passage_names {
            Some(names) => {
                let mut found = did_you_mean(dead.as_str(), names);
                match found.pop() {
                    Some(name) => {
                        let mut note = String::from_str("Found passage with similar name: \"");
                        note.append(name.as_str());
                        note.append("\"");
                        Some(note)
                    },
                    None => None,
                }
            },
            None => None,
        },
        WarningKind::WhitespaceInLink => match &warning.context {
            Some(context) => {
                let link = context.contents.as_str();
                let mended = repair_link(link);
                let mut note = String::from_str("Try replacing ");
                note.append(link);
                note.append(" with ");
                note.append(mended.as_str());
                Some(note)
            },
            None => None,
        },
        WarningKind::Other => None,
    }
}

} // verus!
