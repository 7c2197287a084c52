//! The mutable execution state threaded through one document pass: the
//! current working directory and the table of resolved variable values.
//! Variables are substituted textually into entry strings as `${NAME}`.

use vstd::prelude::*;
use vstd::string::*;

use crate::strings::push_char;
use crate::text_variable::TextVariable;

verus! {

/// Every occurrence of `pat` in `text` replaced by `rep`, scanning left to
/// right without re-scanning replacements. An empty pattern matches
/// nothing and leaves the text unchanged.
pub open spec fn replaced(text: Seq<char>, pat: Seq<char>, rep: Seq<char>) -> Seq<char>
    decreases text.len(),
{
    if pat.len() == 0 || text.len() < pat.len() {
        text
    } else if text.take(pat.len() as int) == pat {
        rep + replaced(text.skip(pat.len() as int), pat, rep)
    } else {
        seq![text[0]] + replaced(text.drop_first(), pat, rep)
    }
}

/// The name-value pairs behind the variable table.
pub open spec fn pair_views(vars: Seq<(String, String)>) -> Seq<(Seq<char>, Seq<char>)> {
    vars.map_values(|p: (String, String)| (p.0@, p.1@))
}

/// The `${NAME}` marker that stands for a variable in entry strings.
pub open spec fn marker_of(name: Seq<char>) -> Seq<char> {
    "${"@ + name + "}"@
}

/// The text with every declared variable substituted, first declaration
/// first.
pub open spec fn substituted(text: Seq<char>, vars: Seq<(Seq<char>, Seq<char>)>) -> Seq<char>
    decreases vars.len(),
{
    if vars.len() == 0 {
        text
    } else {
        substituted(replaced(text, marker_of(vars[0].0), vars[0].1), vars.drop_first())
    }
}

/// The value bound to `name`, earliest binding first.
pub open spec fn binding_of(vars: Seq<(Seq<char>, Seq<char>)>, name: Seq<char>) -> Option<
    Seq<char>,
>
    decreases vars.len(),
{
    if vars.len() == 0 {
        None
    } else if vars[0].0 == name {
        Some(vars[0].1)
    } else {
        binding_of(vars.drop_first(), name)
    }
}

/// Whether two string slices hold the same characters.
pub fn str_eq(a: &str, b: &str) -> (r: bool)
    ensures
        r == (a@ == b@),
{
    let a_len = a.unicode_len();
    let b_len = b.unicode_len();
    if a_len != b_len {
        return false;
    }
    let mut i: usize = 0;
    while i < a_len
        invariant
            i <= a_len,
            a_len == a@.len(),
            a_len == b@.len(),
            forall|j: int| 0 <= j < i ==> a@[j] == b@[j],
        decreases a_len - i,
    {
        if a.get_char(i) != b.get_char(i) {
            return false;
        }
        i = i + 1;
    }
    proof {
        assert(a@ =~= b@);
    }
    true
}

/// Whether `pat` occurs in `text` starting at character `i`.
pub fn matches_at(text: &str, i: usize, pat: &str) -> (r: bool)
    requires
        i <= text@.len(),
    ensures
        r == (i + pat@.len() <= text@.len() && text@.subrange(
            i as int,
            i as int + pat@.len(),
        ) == pat@),
{
    let text_len = text.unicode_len();
    let pat_len = pat.unicode_len();
    if pat_len > text_len - i {
        return false;
    }
    let mut j: usize = 0;
    while j < pat_len
        invariant
            j <= pat_len,
            pat_len == pat@.len(),
            text_len == text@.len(),
            i + pat_len <= text_len,
            forall|k: int| 0 <= k < j ==> text@[i + k] == pat@[k],
        decreases pat_len - j,
    {
        if text.get_char(i + j) != pat.get_char(j) {
            proof {
                let sub = text@.subrange(i as int, i as int + pat@.len());
                assert(sub[j as int] == text@[i + j as int]);
                assert(sub != pat@);
            }
            return false;
        }
        j = j + 1;
    }
    proof {
        assert(text@.subrange(i as int, i as int + pat@.len()) =~= pat@);
    }
    true
}

/// Every occurrence of `pat` in `text` replaced by `rep`.
pub fn replace_all(text: &str, pat: &str, rep: &str) -> (r: String)
    ensures
        r@ == replaced(text@, pat@, rep@),
{
    let text_len = text.unicode_len();
    let pat_len = pat.unicode_len();
    if pat_len == 0 {
        return text.to_owned();
    }
    let mut out = String::new();
    let mut i: usize = 0;
    proof {
        assert(text@.skip(0) =~= text@);
        assert(Seq::<char>::empty() + replaced(text@, pat@, rep@) =~= replaced(
            text@,
            pat@,
            rep@,
        ));
    }
    while i < text_len
        invariant
            i <= text_len,
            text_len == text@.len(),
            pat_len == pat@.len(),
            pat_len >= 1,
            out@ + replaced(text@.skip(i as int), pat@, rep@) == replaced(text@, pat@, rep@),
        decreases text_len - i,
    {
        let ghost prev = out@;
        let ghost suffix = text@.skip(i as int);
        if matches_at(text, i, pat) {
            out.append(rep);
            proof {
                assert(suffix.take(pat@.len() as int) =~= text@.subrange(
                    i as int,
                    i as int + pat@.len(),
                ));
                assert(suffix.skip(pat@.len() as int) =~= text@.skip(i as int + pat_len as int));
                assert(out@ + replaced(text@.skip(i as int + pat_len as int), pat@, rep@)
                    =~= prev + replaced(suffix, pat@, rep@));
            }
            i = i + pat_len;
        } else {
            let c = text.get_char(i);
            push_char(&mut out, c);
            proof {
                assert(suffix[0] == text@[i as int]);
                if suffix.len() < pat@.len() {
                    assert(replaced(suffix, pat@, rep@) == suffix);
                    assert(text@.skip(i as int + 1) =~= suffix.drop_first());
                    assert(replaced(text@.skip(i as int + 1), pat@, rep@) == text@.skip(
                        i as int + 1,
                    ));
                    assert(out@ + text@.skip(i as int + 1) =~= prev + suffix);
                } else {
                    assert(suffix.take(pat@.len() as int) =~= text@.subrange(
                        i as int,
                        i as int + pat@.len(),
                    ));
                    assert(suffix.take(pat@.len() as int) != pat@);
                    assert(suffix.drop_first() =~= text@.skip(i as int + 1));
                    assert(out@ + replaced(text@.skip(i as int + 1), pat@, rep@)
                        =~= prev + replaced(suffix, pat@, rep@));
                }
            }
            i = i + 1;
        }
    }
    proof {
        assert(text@.skip(text_len as int) =~= Seq::<char>::empty());
        assert(replaced(Seq::<char>::empty(), pat@, rep@) == Seq::<char>::empty());
        assert(out@ + Seq::<char>::empty() =~= out@);
    }
    out
}

/// The mutable execution state of one document pass.
#[derive(Debug)]
pub struct Context {
    pub current_dir: String,
    pub variables: Vec<(String, String)>,
}

impl Context {
    /// A fresh context with no variables, rooted at the given directory.
    pub fn new(current_dir: String) -> (r: Context)
        ensures
            r.current_dir@ == current_dir@,
            r.variables@.len() == 0,
    {
        Context { current_dir, variables: Vec::new() }
    }

    /// The same context, rooted at another directory.
    pub fn with_current_dir(self, current_dir: String) -> (r: Context)
        ensures
            r.current_dir@ == current_dir@,
            r.variables == self.variables,
    {
        Context { current_dir, variables: self.variables }
    }

    /// Declares one variable: its resolved value is its default, so a
    /// variable without a default cannot be declared here.
    pub fn add_variable(&mut self, variable: &TextVariable)
        requires
            variable.default_value is Some,
        ensures
            final(self).current_dir == old(self).current_dir,
            final(self).variables@ == old(self).variables@.push(
                (variable.name, variable.default_value.unwrap()),
            ),
    {
        let name = variable.name();
        let value = variable.value();
        self.variables.push((name, value));
    }

    /// The value bound to `name`, if any.
    pub fn value_of(&self, name: &str) -> (r: Option<String>)
        ensures
            match r {
                None => binding_of(pair_views(self.variables@), name@) is None,
                Some(v) => binding_of(pair_views(self.variables@), name@) == Some(v@),
            },
    {
        let ghost vars = pair_views(self.variables@);
        let mut i: usize = 0;
        proof {
            assert(vars.skip(0) =~= vars);
        }
        while i < self.variables.len()
            invariant
                i <= self.variables@.len(),
                vars == pair_views(self.variables@),
                binding_of(vars.skip(i as int), name@) == binding_of(vars, name@),
            decreases self.variables@.len() - i,
        {
            proof {
                assert(vars.skip(i as int)[0] == vars[i as int]);
                assert(vars.skip(i as int).drop_first() =~= vars.skip(i as int + 1));
            }
            if str_eq(self.variables[i].0.as_str(), name) {
                return Some(self.variables[i].1.clone());
            }
            i = i + 1;
        }
        proof {
            assert(vars.skip(self.variables@.len() as int) =~= Seq::<(Seq<char>, Seq<char>)>::empty());
        }
        None
    }

    /// Substitutes every declared variable's `${NAME}` marker in `text`
    /// with its value, first declaration first.
    pub fn resolve(&self, text: &str) -> (r: String)
        ensures
            r@ == substituted(text@, pair_views(self.variables@)),
    {
        let ghost vars = pair_views(self.variables@);
        let mut current = text.to_owned();
        let mut i: usize = 0;
        proof {
            assert(vars.skip(0) =~= vars);
        }
        while i < self.variables.len()
            invariant
                i <= self.variables@.len(),
                vars == pair_views(self.variables@),
                substituted(current@, vars.skip(i as int)) == substituted(text@, vars),
            decreases self.variables@.len() - i,
        {
            let ghost suffix = vars.skip(i as int);
            let mut marker = String::new();
            marker.append("${");
            marker.append(self.variables[i].0.as_str());
            marker.append("}");
            proof {
                assert(marker@ =~= marker_of(vars[i as int].0));
                assert(suffix[0] == vars[i as int]);
                assert(suffix.drop_first() =~= vars.skip(i as int + 1));
            }
            current = replace_all(current.as_str(), marker.as_str(), self.variables[i].1.as_str());
            i = i + 1;
        }
        proof {
            assert(vars.skip(self.variables@.len() as int) =~= Seq::<(Seq<char>, Seq<char>)>::empty());
        }
        current
    }
}

} // verus!
