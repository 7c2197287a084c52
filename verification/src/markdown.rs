//! A markdown entry: free-form content lines emitted verbatim into the
//! rendered document.

use vstd::prelude::*;
use vstd::string::*;

use crate::strings::join_nl;
use crate::strings::views_of;

verus! {

/// A markdown entry of the runbook.
#[derive(Debug, PartialEq)]
pub struct MarkdownEntry {
    pub contents: Vec<String>,
    pub tags: Option<Vec<String>>,
}

/// The markdown a markdown entry renders to: its content lines joined by
/// newlines, with one closing newline.
pub open spec fn markdown_markdown(contents: Seq<Seq<char>>) -> Seq<char> {
    join_nl(contents) + "\n"@
}

impl MarkdownEntry {
    /// Renders the content lines; a markdown entry always renders
    /// successfully.
    pub fn run_markdown(&self) -> (r: Result<String, String>)
        ensures
            r matches Ok(md) && md@ == markdown_markdown(views_of(self.contents@)),
    {
        let mut md = crate::strings::join_lines(&self.contents);
        md.append("\n");
        Ok(md)
    }
}

} // verus!
