//! A to-do entry: operator-facing reminder lines, shown on the console
//! rather than woven into the rendered document.

use vstd::prelude::*;
use vstd::string::*;

use crate::strings::push_char;
use crate::strings::views_of;

verus! {

/// Reminder lines, each shown indented by one space under a `TODO` marker.
pub open spec fn comment_lines(comments: Seq<Seq<char>>) -> Seq<char>
    decreases comments.len(),
{
    if comments.len() == 0 {
        Seq::empty()
    } else {
        seq![' '] + comments[0] + seq!['\n'] + comment_lines(comments.drop_first())
    }
}

/// What a to-do entry shows on the console: a `TODO` marker line, then one
/// line per comment.
pub open spec fn todo_display(comments: Option<Seq<Seq<char>>>) -> Seq<char> {
    "TODO\n"@ + match comments {
        None => Seq::empty(),
        Some(cs) => comment_lines(cs),
    }
}

/// A to-do entry of the runbook.
#[derive(Debug, PartialEq)]
pub struct TodoEntry {
    pub comments: Option<Vec<String>>,
}

impl TodoEntry {
    /// The console text of this entry.
    pub fn display_string(&self) -> (r: String)
        ensures
            r@ == todo_display(
                match self.comments {
                    None => None,
                    Some(cs) => Some(views_of(cs@)),
                },
            ),
    {
        let mut out = String::new();
        out.append("TODO\n");
        proof {
            assert(out@ =~= "TODO\n"@);
        }
        if let Some(comments) = &self.comments {
            let ghost all = views_of(comments@);
            let mut i: usize = 0;
            proof {
                assert(all.skip(0) =~= all);
            }
            while i < comments.len()
                invariant
                    i <= comments.len(),
                    all == views_of(comments@),
                    out@ + comment_lines(all.skip(i as int)) == "TODO\n"@ + comment_lines(all),
                decreases comments.len() - i,
            {
                let ghost prev = out@;
                let ghost suffix = all.skip(i as int);
                out.append(" ");
                out.append(comments[i].as_str());
                out.append("\n");
                proof {
                    reveal_strlit(" ");
                    reveal_strlit("\n");
                    assert(suffix[0] == all[i as int]);
                    assert(suffix.drop_first() =~= all.skip(i as int + 1));
                    assert(out@ + comment_lines(all.skip(i as int + 1)) =~= prev + comment_lines(
                        suffix,
                    ));
                }
                i = i + 1;
            }
            proof {
                assert(all.skip(comments@.len() as int) =~= Seq::<Seq<char>>::empty());
                assert(out@ =~= out@ + comment_lines(Seq::<Seq<char>>::empty()));
            }
        }
        proof {
            if self.comments is None {
                assert(out@ =~= "TODO\n"@ + Seq::<char>::empty());
            }
        }
        out
    }
}

} // verus!
