//! Story formats: what a format file declares, and where in the file the
//! declaration stands.
use crate::text::{chars_of, find, find_last, first_occurrence, last_occurrence};
use vstd::prelude::*;
use vstd::string::{StrSliceExecFns, StringExecFns};

verus! {

/// The name of a story format that declares none.
pub fn default_name() -> (name: String)
    ensures
        name@ == "Untitled Story Format"@,
{
    "Untitled Story Format".to_owned()
}

/// What a story format declares of itself.
#[derive(Debug, PartialEq, Eq)]
pub struct StoryFormat {
    /// The name of the format.
    pub name: String,
    /// The version, in the form `x.y.z`.
    pub version: String,
    /// The author.
    pub author: Option<String>,
    /// What the format is for.
    pub description: Option<String>,
    /// The file name of an image that stands for the format.
    pub image: Option<String>,
    /// The address of the directory that holds the format.
    pub url: Option<String>,
    /// The license.
    pub license: Option<String>,
    /// Whether this is a format for proofing.
    pub proofing: bool,
    /// The page that a story is put into, with the placeholders
    /// `{{STORY_NAME}}` and `{{STORY_DATA}}`.
    pub source: String,
}

/// The characters `,"setup":`, behind which Harlowe keeps what is no JSON.
pub open spec fn setup_mark() -> Seq<char> {
    seq![',', '"', 's', 'e', 't', 'u', 'p', '"', ':']
}

/// The characters `harlowe`.
pub open spec fn harlowe() -> Seq<char> {
    seq!['h', 'a', 'r', 'l', 'o', 'w', 'e']
}

/// Where the JSON of a format file starts and ends: it starts at the first
/// `{`; it ends before the last `,"setup":` in a file that holds the word
/// `harlowe`, before the last `}` in any other. There is none without a `{`
/// or without that end.
pub open spec fn blob_span(contents: Seq<char>) -> Option<(int, int)> {
    match first_occurrence(contents, seq!['{']) {
        Some(start) => {
            let end = if first_occurrence(contents, harlowe()) is Some {
                last_occurrence(contents, setup_mark())
            } else {
                last_occurrence(contents, seq!['}'])
            };
            match end {
                Some(end) => Some((start, end)),
                None => None,
            }
        },
        None => None,
    }
}

/// The JSON of a format file: what stands from `start` up to `end`, closed
/// with a `}`.
pub open spec fn blob_of(contents: Seq<char>, start: int, end: int) -> Seq<char> {
    contents.subrange(start, end).push('}')
}

/// What to tell the user where a format file holds no JSON.
pub fn blob_missing() -> (message: String)
    ensures
        message@ == "Could not find Twine2 JSON blob"@,
{
    "Could not find Twine2 JSON blob".to_owned()
}

/// Where the JSON of a format file starts and ends, as indices of
/// characters.
pub fn find_blob(contents: &str) -> (span: Option<(usize, usize)>)
    ensures
        match span {
            Some((start, end)) => blob_span(contents@) == Some((start as int, end as int)) && start
                < contents@.len() && end < contents@.len(),
            None => blob_span(contents@) is None,
        },
{
    let chars = chars_of(contents);
    let open = vec!['{'];
    let close = vec!['}'];
    let word = vec!['h', 'a', 'r', 'l', 'o', 'w', 'e'];
    let mark = vec![',', '"', 's', 'e', 't', 'u', 'p', '"', ':'];
    assert(open@ =~= seq!['{'] && open@.len() == 1);
    assert(close@ =~= seq!['}'] && close@.len() == 1);
    assert(word@ =~= harlowe());
    assert(mark@ =~= setup_mark() && mark@.len() == 9);
    match find(&chars, &open) {
        Some(start) => {
            let end = if find(&chars, &word).is_some() {
                find_last(&chars, &mark)
            } else {
                find_last(&chars, &close)
            };
            match end {
                Some(end) => Some((start, end)),
                None => None,
            }
        },
        None => None,
    }
}

/// The JSON of a format file, given where it starts and ends.
pub fn cut_blob(contents: &str, start: usize, end: usize) -> (blob: String)
    requires
        start <= end <= contents@.len(),
    ensures
        blob@ == blob_of(contents@, start as int, end as int),
{
    let mut blob = String::from_str(contents.substring_char(start, end));
    blob.append("}");
    proof {
        reveal_strlit("}");
        assert("}"@ =~= seq!['}']);
        assert(blob@ =~= blob_of(contents@, start as int, end as int));
    }
    blob
}

} // verus!
