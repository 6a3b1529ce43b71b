//! The sources of a story as the report needs them: files by id, lines by
//! byte offset, and the passage names where the story parsed.
use crate::code_map::{line_holds, CodeMap};
use crate::context::{copy_strings, ByteRange};
use crate::findings::StoryResult;
use crate::suggest::names_known;
use vstd::prelude::*;

verus! {

/// The sources of a story, and its passage names where they are known.
pub struct StoryFiles<'a> {
    /// The source files.
    pub code_map: &'a CodeMap,
    /// The names of the story's passages; `None` where the parse failed.
    pub passage_names: Option<Vec<String>>,
}

/// The sources that the parser read, whether it succeeded or failed.
pub open spec fn code_map_of<S>(story_result: StoryResult<S>) -> CodeMap {
    match story_result {
        Ok(story) => story.code_map,
        Err(failed) => failed.code_map,
    }
}

/// The passage names of a story that parsed; `None` where the parse failed.
pub open spec fn passage_names_of<S>(story_result: StoryResult<S>) -> Option<Seq<String>> {
    match story_result {
        Ok(story) => Some(story.passage_names@),
        Err(_) => None,
    }
}

impl<'a> StoryFiles<'a> {
    /// The passage names, where they are known.
    pub open spec fn known_names(self) -> Option<Seq<String>> {
        names_known(self.passage_names)
    }

    /// The sources of what the parser handed over. The passage names are
    /// known only where the story parsed.
    pub fn new<S>(res: &'a StoryResult<S>) -> (files: Self)
        ensures
            *files.code_map == code_map_of(*res),
            files.known_names() == passage_names_of(*res),
    {
        match res {
            Ok(story) => StoryFiles {
                code_map: &story.code_map,
                passage_names: Some(copy_strings(&story.passage_names)),
            },
            Err(failed) => StoryFiles { code_map: &failed.code_map, passage_names: None },
        }
    }

    /// The name of the file of id `id`.
    pub fn name(&self, id: usize) -> (name: Option<&String>)
        ensures
            match name {
                Some(name) => id < self.code_map.files@.len() && self.code_map.files@[id as int].name()
                    == Some(*name),
                None => id >= self.code_map.files@.len() || self.code_map.files@[id as int].name()
                     is None,
            },
    {
        self.code_map.lookup_name(id)
    }

    /// The text of the file of id `id`.
    pub fn source(&self, id: usize) -> (source: Option<&String>)
        ensures
            match source {
                Some(source) => id < self.code_map.files@.len() && *source
                    == self.code_map.files@[id as int].source(),
                None => id >= self.code_map.files@.len(),
            },
    {
        match self.code_map.get_file(id) {
            Some(file) => Some(file.get_source()),
            None => None,
        }
    }

    /// The index of the line of file `id` that holds the byte at
    /// `byte_index`: the last line that starts at or before it.
    pub fn line_index(&self, id: usize, byte_index: usize) -> (line: Option<usize>)
        ensures
            match line {
                Some(line) => id < self.code_map.files@.len() && line_holds(
                    self.code_map.files@[id as int].line_starts(),
                    line as int,
                    byte_index,
                ),
                None => id >= self.code_map.files@.len(),
            },
    {
        match self.code_map.get_file(id) {
            Some(file) => Some(file.line_at(byte_index)),
            None => None,
        }
    }

    /// The bytes of the line of index `line_index` of file `id`: those that
    /// the code map holds for the line numbered one higher.
    pub fn line_range(&self, id: usize, line_index: usize) -> (range: Option<ByteRange>)
        ensures
            range == if line_index < usize::MAX {
                self.code_map.range_of_line(id, (line_index + 1) as usize)
            } else {
                None
            },
    {
        if line_index < usize::MAX {
            self.code_map.line_range(id, line_index + 1)
        } else {
            None
        }
    }
}

} // verus!
