//! What is written for a story that compiled: the page, and the name of the
//! file that holds it.
use crate::story_format::StoryFormat;
use crate::text::{replace_all, replaced};
use vstd::prelude::*;
use vstd::string::StringExecFns;

verus! {

/// The title of a story: its own, or `Untitled Story` where it has none.
pub open spec fn title_or_default(title: Option<String>) -> Seq<char> {
    match title {
        Some(title) => title@,
        None => "Untitled Story"@,
    }
}

/// The title of a story: its own, or `Untitled Story` where it has none.
pub fn story_title(title: &Option<String>) -> (shown: String)
    ensures
        shown@ == title_or_default(*title),
{
    match title {
        Some(title) => title.clone(),
        None => "Untitled Story".to_owned(),
    }
}

/// The name of the file to write: the one asked for, else the title of the
/// story with `.html` behind it.
pub open spec fn file_name_for(output_file: Option<String>, title: Seq<char>) -> Seq<char> {
    match output_file {
        Some(name) => name@,
        None => title + ".html"@,
    }
}

/// The name of the file to write.
pub fn output_file_name(output_file: &Option<String>, title: &str) -> (name: String)
    ensures
        name@ == file_name_for(*output_file, title@),
{
    match output_file {
        Some(name) => name.clone(),
        None => {
            let mut name = String::from_str(title);
            name.append(".html");
            name
        },
    }
}

/// The page of a story: the source of the format with the story's title in
/// place of each `{{STORY_NAME}}` and then the story's data in place of
/// each `{{STORY_DATA}}`.
pub open spec fn page_of(source: Seq<char>, title: Seq<char>, data: Seq<char>) -> Seq<char> {
    replaced(replaced(source, "{{STORY_NAME}}"@, title), "{{STORY_DATA}}"@, data)
}

/// The page of a story in the given format.
pub fn fill_page(format: &StoryFormat, title: &str, data: &str) -> (page: String)
    ensures
        page@ == page_of(format.source@, title@, data@),
{
    let named = replace_all(format.source.as_str(), "{{STORY_NAME}}", title);
    replace_all(named.as_str(), "{{STORY_DATA}}", data)
}

} // verus!
