//! Where in the sources something was found.
use vstd::prelude::*;

verus! {

/// The bytes of a file from offset `start` up to offset `end`.
#[derive(Debug, Clone, Copy, PartialEq, Eq, Structural)]
pub struct ByteRange {
    /// The offset of the first byte.
    pub start: usize,
    /// The offset behind the last byte.
    pub end: usize,
}

/// A span of Twee source code: the file it lies in, where it starts, the
/// bytes it covers and the text itself.
#[derive(Debug, PartialEq, Eq)]
pub struct SourceContext {
    /// The file the span lies in, if it came from a file.
    pub file_name: Option<String>,
    /// The one-indexed line on which the span starts.
    pub line: usize,
    /// The one-indexed column at which the span starts.
    pub column: usize,
    /// The bytes of the file that the span covers.
    pub byte_range: ByteRange,
    /// The text of the span.
    pub contents: String,
}

/// A copy of an optional string.
pub fn copy_optional(text: &Option<String>) -> (copy: Option<String>)
    ensures
        copy == *text,
{
    match text {
        Some(text) => Some(text.clone()),
        None => None,
    }
}

/// A copy of a list of strings.
pub fn copy_strings(list: &Vec<String>) -> (copy: Vec<String>)
    ensures
        copy@ == list@,
{
    let mut copy: Vec<String> = Vec::new();
    let mut at: usize = 0;
    while at < list.len()
        invariant
            at <= list.len(),
            copy@ == list@.take(at as int),
        decreases list.len() - at,
    {
        copy.push(list[at].clone());
        assert(list@.take(at + 1) =~= list@.take(at as int).push(list@[at as int]));
        at += 1;
    }
    assert(list@.take(list.len() as int) =~= list@);
    copy
}

impl Clone for SourceContext {
    fn clone(&self) -> (copy: Self)
        ensures
            copy == *self,
    {
        SourceContext {
            file_name: copy_optional(&self.file_name),
            line: self.line,
            column: self.column,
            byte_range: self.byte_range,
            contents: self.contents.clone(),
        }
    }
}

/// A copy of an optional context.
pub fn copy_context(context: &Option<SourceContext>) -> (copy: Option<SourceContext>)
    ensures
        copy == *context,
{
    match context {
        Some(context) => Some(context.clone()),
        None => None,
    }
}

} // verus!
