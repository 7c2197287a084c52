//! A text variable declaration: a name and an optional default value. Only
//! variables with a default are currently resolvable; asking for the value
//! of one without a default is a configuration error the caller must rule
//! out first.

use vstd::prelude::*;
use vstd::string::*;

verus! {

/// A text variable declared by the runbook.
#[derive(Debug, PartialEq)]
pub struct TextVariable {
    pub name: String,
    pub default_value: Option<String>,
}

/// What a text variable shows on the console: its name, and its default
/// value in parentheses if it has one.
pub open spec fn text_variable_display(name: Seq<char>, default_value: Option<Seq<char>>) -> Seq<
    char,
> {
    name + match default_value {
        None => Seq::empty(),
        Some(v) => " ("@ + v + ")"@,
    }
}

impl TextVariable {
    /// The variable's name.
    pub fn name(&self) -> (r: String)
        ensures
            r == self.name,
    {
        self.name.clone()
    }

    /// The variable's resolved value: its default. A variable without a
    /// default cannot be resolved, so the caller must not ask.
    pub fn value(&self) -> (r: String)
        requires
            self.default_value is Some,
        ensures
            self.default_value matches Some(v) ==> r == v,
    {
        match &self.default_value {
            Some(v) => v.clone(),
            None => {
                proof {
                    assert(false);
                }
                String::new()
            },
        }
    }

    /// The console text of this variable.
    pub fn display_string(&self) -> (r: String)
        ensures
            r@ == text_variable_display(
                self.name@,
                match self.default_value {
                    None => None,
                    Some(v) => Some(v@),
                },
            ),
    {
        let mut out = String::new();
        out.append(self.name.as_str());
        if let Some(v) = &self.default_value {
            out.append(" (");
            out.append(v.as_str());
            out.append(")");
        }
        proof {
            match &self.default_value {
                None => {
                    assert(out@ =~= self.name@ + Seq::<char>::empty());
                },
                Some(v) => {
                    assert(out@ =~= self.name@ + (" ("@ + v@ + ")"@));
                },
            }
        }
        out
    }
}

} // verus!
