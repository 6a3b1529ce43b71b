//! What the parser reports: errors, which end the run, and warnings, which
//! the allow and deny lists decide about.
use crate::code_map::CodeMap;
use crate::context::{copy_context, SourceContext};
use vstd::prelude::*;

verus! {

/// What a warning is about, as far as the report treats kinds differently.
#[derive(Debug, PartialEq, Eq)]
pub enum WarningKind {
    /// A link to a passage that does not exist; holds the name it asks for.
    DeadLink(String),
    /// Whitespace around the passage name inside a link.
    WhitespaceInLink,
    /// Any other kind.
    Other,
}

impl Clone for WarningKind {
    fn clone(&self) -> (copy: Self)
        ensures
            copy == *self,
    {
        match self {
            WarningKind::DeadLink(target) => WarningKind::DeadLink(target.clone()),
            WarningKind::WhitespaceInLink => WarningKind::WhitespaceInLink,
            WarningKind::Other => WarningKind::Other,
        }
    }
}

/// A defect that does not stop the parser.
#[derive(Debug, PartialEq, Eq)]
pub struct Warning {
    /// What the warning is about.
    pub kind: WarningKind,
    /// The name of the warning's kind, by which the lists allow and deny it.
    pub name: String,
    /// What the warning says, without its place.
    pub message: String,
    /// The warning written out in one line, place included.
    pub text: String,
    /// Where the defect was found; `None` for one that concerns the whole
    /// story.
    pub context: Option<SourceContext>,
    /// Where the earlier definition stands that this warning points back to.
    pub referent: Option<SourceContext>,
}

impl Clone for Warning {
    fn clone(&self) -> (copy: Self)
        ensures
            copy == *self,
    {
        Warning {
            kind: self.kind.clone(),
            name: self.name.clone(),
            message: self.message.clone(),
            text: self.text.clone(),
            context: copy_context(&self.context),
            referent: copy_context(&self.referent),
        }
    }
}

/// A defect that makes the parse fail.
#[derive(Debug, PartialEq, Eq)]
pub struct ParseError {
    /// The name of the error's kind.
    pub name: String,
    /// What the error says, without its place.
    pub message: String,
    /// The error written out in one line, place included.
    pub text: String,
    /// Where the defect was found; `None` for one that concerns the whole
    /// story.
    pub context: Option<SourceContext>,
}

impl Clone for ParseError {
    fn clone(&self) -> (copy: Self)
        ensures
            copy == *self,
    {
        ParseError {
            name: self.name.clone(),
            message: self.message.clone(),
            text: self.text.clone(),
            context: copy_context(&self.context),
        }
    }
}

/// A story that parsed.
pub struct ParsedStory<S> {
    /// The story itself, which the report does not look into.
    pub story: S,
    /// The names of the story's passages.
    pub passage_names: Vec<String>,
    /// The sources the story was read from.
    pub code_map: CodeMap,
}

/// A parse that failed.
pub struct FailedParse {
    /// The errors that made it fail, in the order the parser met them.
    pub errors: Vec<ParseError>,
    /// The sources that were read.
    pub code_map: CodeMap,
}

/// What the parser hands over, beside its warnings.
pub type StoryResult<S> = Result<ParsedStory<S>, FailedParse>;

} // verus!
