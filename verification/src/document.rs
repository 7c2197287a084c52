//! The document: an ordered sequence of typed entries, held exactly as
//! parsed and walked top to bottom. Order is semantically significant —
//! execution and rendering both follow it.

use vstd::prelude::*;

use crate::breakpoint::BreakpointEntry;
use crate::command::CommandEntry;
use crate::display_file::DisplayFileEntry;
use crate::heading::heading_markdown;
use crate::heading::HeadingEntry;
use crate::markdown::markdown_markdown;
use crate::markdown::MarkdownEntry;
use crate::strings::views_of;
use crate::todo::todo_display;
use crate::todo::TodoEntry;

verus! {

/// One typed unit of the runbook: the closed set of entry kinds.
#[derive(Debug, PartialEq)]
pub enum Entry {
    Breakpoint(BreakpointEntry),
    Command(CommandEntry),
    DisplayFile(DisplayFileEntry),
    Heading(HeadingEntry),
    Markdown(MarkdownEntry),
    Todo(TodoEntry),
}

/// The command entries of a document, in document order.
pub open spec fn command_entries(entries: Seq<Entry>) -> Seq<CommandEntry>
    decreases entries.len(),
{
    if entries.len() == 0 {
        Seq::empty()
    } else {
        (match entries[0] {
            Entry::Command(c) => seq![c],
            _ => Seq::empty(),
        }) + command_entries(entries.drop_first())
    }
}

impl Entry {
    /// Renders an entry that needs nothing from the host: a heading, a
    /// markdown block, or a to-do; those always succeed. Commands and
    /// file excerpts need the host, and breakpoints the operator, so for
    /// them nothing is rendered here.
    pub fn render_static(&self) -> (r: Option<Result<String, String>>)
        ensures
            self matches Entry::Heading(h) ==> (r matches Some(Ok(md)) && md@
                == heading_markdown(h.level, h.title@)),
            self matches Entry::Markdown(m) ==> (r matches Some(Ok(md)) && md@
                == markdown_markdown(views_of(m.contents@))),
            self matches Entry::Todo(t) ==> (r matches Some(Ok(md)) && md@ == todo_display(
                match t.comments {
                    None => None,
                    Some(cs) => Some(views_of(cs@)),
                },
            )),
            self matches Entry::Breakpoint(_) ==> r is None,
            self matches Entry::Command(_) ==> r is None,
            self matches Entry::DisplayFile(_) ==> r is None,
    {
        match self {
            Entry::Heading(h) => Some(h.run_markdown()),
            Entry::Markdown(m) => Some(m.run_markdown()),
            Entry::Todo(t) => Some(Ok(t.display_string())),
            Entry::Breakpoint(_) => None,
            Entry::Command(_) => None,
            Entry::DisplayFile(_) => None,
        }
    }
}

/// A runbook document: its entries in original order, immutable once
/// constructed.
#[derive(Debug, PartialEq)]
pub struct Document {
    pub entries: Vec<Entry>,
}

impl Document {
    /// A document over the given entries, kept exactly as handed in.
    pub fn new(entries: Vec<Entry>) -> (r: Document)
        ensures
            r.entries == entries,
    {
        Document { entries }
    }

    /// The entries for iteration, in original order, read-only.
    pub fn entries(&self) -> (r: Vec<&Entry>)
        ensures
            r@.len() == self.entries@.len(),
            forall|i: int| 0 <= i < r@.len() ==> *r@[i] == self.entries@[i],
    {
        let mut out: Vec<&Entry> = Vec::new();
        let mut i: usize = 0;
        while i < self.entries.len()
            invariant
                i <= self.entries@.len(),
                out@.len() == i,
                forall|j: int| 0 <= j < i ==> *out@[j] == self.entries@[j],
            decreases self.entries@.len() - i,
        {
            out.push(&self.entries[i]);
            i = i + 1;
        }
        out
    }

    /// The command entries alone, in document order.
    pub fn commands(&self) -> (r: Vec<&CommandEntry>)
        ensures
            r@.map_values(|c: &CommandEntry| *c) == command_entries(self.entries@),
    {
        let ghost all = self.entries@;
        let mut out: Vec<&CommandEntry> = Vec::new();
        let mut i: usize = 0;
        proof {
            assert(all.skip(0) =~= all);
            assert(out@.map_values(|c: &CommandEntry| *c) + command_entries(all)
                =~= command_entries(all));
        }
        while i < self.entries.len()
            invariant
                i <= all.len(),
                all == self.entries@,
                out@.map_values(|c: &CommandEntry| *c) + command_entries(all.skip(i as int))
                    == command_entries(all),
            decreases all.len() - i,
        {
            let ghost prev = out@.map_values(|c: &CommandEntry| *c);
            proof {
                assert(all.skip(i as int)[0] == all[i as int]);
                assert(all.skip(i as int).drop_first() =~= all.skip(i as int + 1));
            }
            match &self.entries[i] {
                Entry::Command(c) => {
                    out.push(c);
                    proof {
                        assert(out@.map_values(|c: &CommandEntry| *c) =~= prev.push(
                            all[i as int]->Command_0,
                        ));
                        assert(out@.map_values(|c: &CommandEntry| *c) + command_entries(
                            all.skip(i as int + 1),
                        ) =~= prev + command_entries(all.skip(i as int)));
                    }
                },
                _ => {
                    proof {
                        assert(command_entries(all.skip(i as int)) =~= Seq::<
                            CommandEntry,
                        >::empty() + command_entries(all.skip(i as int + 1)));
                        assert(out@.map_values(|c: &CommandEntry| *c) + command_entries(
                            all.skip(i as int + 1),
                        ) =~= prev + command_entries(all.skip(i as int)));
                    }
                },
            }
            i = i + 1;
        }
        proof {
            assert(all.skip(all.len() as int) =~= Seq::<Entry>::empty());
            assert(out@.map_values(|c: &CommandEntry| *c) + command_entries(
                Seq::<Entry>::empty(),
            ) =~= out@.map_values(|c: &CommandEntry| *c));
        }
        out
    }
}

} // verus!
