//! A heading entry: one of five levels and a title, rendered as a markdown
//! heading line.

use vstd::prelude::*;
use vstd::string::*;

verus! {

/// The heading depth, `H1` being the outermost.
#[derive(Debug, Clone, Copy, PartialEq, Eq, Structural)]
pub enum HeadingLevel {
    H1,
    H2,
    H3,
    H4,
    H5,
}

/// The run of `'#'` marks that announces a heading of the given level.
pub open spec fn heading_prefix(level: HeadingLevel) -> Seq<char> {
    match level {
        HeadingLevel::H1 => "#"@,
        HeadingLevel::H2 => "##"@,
        HeadingLevel::H3 => "###"@,
        HeadingLevel::H4 => "####"@,
        HeadingLevel::H5 => "#####"@,
    }
}

/// The markdown a heading renders to: its `'#'` marks, a space, the title,
/// and a closing newline.
pub open spec fn heading_markdown(level: HeadingLevel, title: Seq<char>) -> Seq<char> {
    heading_prefix(level) + " "@ + title + "\n"@
}

/// A heading entry of the runbook.
#[derive(Debug, PartialEq)]
pub struct HeadingEntry {
    pub level: HeadingLevel,
    pub title: String,
}

impl HeadingEntry {
    /// Renders the heading; a heading always renders successfully.
    pub fn run_markdown(&self) -> (r: Result<String, String>)
        ensures
            r matches Ok(md) && md@ == heading_markdown(self.level, self.title@),
    {
        let mut md = String::new();
        match self.level {
            HeadingLevel::H1 => md.append("#"),
            HeadingLevel::H2 => md.append("##"),
            HeadingLevel::H3 => md.append("###"),
            HeadingLevel::H4 => md.append("####"),
            HeadingLevel::H5 => md.append("#####"),
        }
        md.append(" ");
        md.append(self.title.as_str());
        md.append("\n");
        proof {
            assert(md@ =~= heading_markdown(self.level, self.title@));
        }
        Ok(md)
    }
}

} // verus!
