//! A breakpoint entry: pauses the run until the operator presses enter.
//! The waiting itself is the driver's business; the entry only carries the
//! optional comment to show.

use vstd::prelude::*;
use vstd::string::*;

verus! {

/// What a breakpoint shows on the console: the word `Breakpoint`, the
/// optional comment in parentheses, and a closing newline.
pub open spec fn breakpoint_display(comment: Option<Seq<char>>) -> Seq<char> {
    "Breakpoint"@ + match comment {
        None => Seq::empty(),
        Some(c) => " ("@ + c + ")"@,
    } + "\n"@
}

/// A breakpoint entry of the runbook.
#[derive(Debug, PartialEq)]
pub struct BreakpointEntry {
    pub comment: Option<String>,
}

impl BreakpointEntry {
    /// The operator comment to print while waiting, if one was given.
    pub fn comment(&self) -> (r: &Option<String>)
        ensures
            r == &self.comment,
    {
        &self.comment
    }

    /// The console text of this entry.
    pub fn display_string(&self) -> (r: String)
        ensures
            r@ == breakpoint_display(
                match self.comment {
                    None => None,
                    Some(c) => Some(c@),
                },
            ),
    {
        let mut out = String::new();
        out.append("Breakpoint");
        if let Some(comment) = &self.comment {
            out.append(" (");
            out.append(comment.as_str());
            out.append(")");
        }
        out.append("\n");
        proof {
            match &self.comment {
                None => {
                    assert(out@ =~= "Breakpoint"@ + Seq::<char>::empty() + "\n"@);
                },
                Some(c) => {
                    assert(out@ =~= "Breakpoint"@ + (" ("@ + c@ + ")"@) + "\n"@);
                },
            }
        }
        out
    }
}

} // verus!
