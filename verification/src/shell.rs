//! The ephemeral shell script protocol: every executed command entry gets a
//! freshly named script file inside its resolved working directory. The
//! name weaves in the process start stamp and a strictly increasing
//! counter, so no two scripts of one run ever collide. Writing, running
//! and deleting the file is the driver's business; the name, the contents
//! and their uniqueness are decided here.

use vstd::prelude::*;
use vstd::string::*;

use crate::strings::push_char;

verus! {

/// The decimal digit character for a value below ten.
pub open spec fn digit_char(d: nat) -> char {
    if d == 0 {
        '0'
    } else if d == 1 {
        '1'
    } else if d == 2 {
        '2'
    } else if d == 3 {
        '3'
    } else if d == 4 {
        '4'
    } else if d == 5 {
        '5'
    } else if d == 6 {
        '6'
    } else if d == 7 {
        '7'
    } else if d == 8 {
        '8'
    } else {
        '9'
    }
}

/// The decimal digits of `n`, most significant first.
pub open spec fn dec_digits(n: nat) -> Seq<char>
    decreases n,
{
    if n < 10 {
        seq![digit_char(n)]
    } else {
        dec_digits(n / 10) + seq![digit_char(n % 10)]
    }
}

/// The file name of the ephemeral script with the given process start
/// stamp and counter index.
pub open spec fn script_file_name(start: nat, index: nat) -> Seq<char> {
    ".sw-commands-"@ + dec_digits(start) + "-"@ + dec_digits(index) + ".sh"@
}

/// The full path of the ephemeral script inside its directory.
pub open spec fn script_path(dir: Seq<char>, start: nat, index: nat) -> Seq<char> {
    dir + "/"@ + script_file_name(start, index)
}

/// The digit character of a value below ten.
fn digit_of(d: u128) -> (r: char)
    requires
        d < 10,
    ensures
        r == digit_char(d as nat),
{
    if d == 0 {
        '0'
    } else if d == 1 {
        '1'
    } else if d == 2 {
        '2'
    } else if d == 3 {
        '3'
    } else if d == 4 {
        '4'
    } else if d == 5 {
        '5'
    } else if d == 6 {
        '6'
    } else if d == 7 {
        '7'
    } else if d == 8 {
        '8'
    } else {
        '9'
    }
}

/// Appends the decimal digits of `n`, most significant first.
fn push_decimal(out: &mut String, n: u128)
    ensures
        final(out)@ == old(out)@ + dec_digits(n as nat),
    decreases n,
{
    if n < 10 {
        push_char(out, digit_of(n));
    } else {
        push_decimal(out, n / 10);
        push_char(out, digit_of(n % 10));
        proof {
            assert(out@ =~= old(out)@ + (dec_digits((n / 10) as nat) + seq![
                digit_char((n % 10) as nat)]));
        }
    }
}

/// Every decimal rendering has at least one digit, and a value of ten or
/// more has at least two.
proof fn lemma_dec_digits_len(n: nat)
    ensures
        dec_digits(n).len() >= 1,
        n >= 10 ==> dec_digits(n).len() >= 2,
    decreases n,
{
    if n >= 10 {
        lemma_dec_digits_len(n / 10);
    }
}

/// Distinct values have distinct decimal renderings.
proof fn lemma_dec_digits_injective(a: nat, b: nat)
    requires
        dec_digits(a) == dec_digits(b),
    ensures
        a == b,
    decreases a,
{
    lemma_dec_digits_len(a);
    lemma_dec_digits_len(b);
    if a < 10 && b < 10 {
        assert(dec_digits(a)[0] == digit_char(a));
        assert(dec_digits(b)[0] == digit_char(b));
    } else if a < 10 {
        assert(dec_digits(a).len() == 1);
        assert(dec_digits(b).len() >= 2);
    } else if b < 10 {
        assert(dec_digits(a).len() >= 2);
        assert(dec_digits(b).len() == 1);
    } else {
        let la = dec_digits(a).len();
        assert(dec_digits(a).last() == digit_char((a % 10) as nat));
        assert(dec_digits(b).last() == digit_char((b % 10) as nat));
        assert(a % 10 == b % 10);
        assert(dec_digits(a).take(la - 1) =~= dec_digits(a / 10));
        assert(dec_digits(b).take(la - 1) =~= dec_digits(b / 10));
        lemma_dec_digits_injective((a / 10) as nat, (b / 10) as nat);
    }
}

/// Two ephemeral scripts of one run never share a path: with the same
/// start stamp, distinct counter indices give distinct file paths.
pub proof fn lemma_script_paths_unique(dir: Seq<char>, start: nat, i1: nat, i2: nat)
    requires
        i1 != i2,
    ensures
        script_path(dir, start, i1) != script_path(dir, start, i2),
{
    let a = dir + "/"@ + ".sw-commands-"@ + dec_digits(start) + "-"@;
    let d1 = dec_digits(i1);
    let d2 = dec_digits(i2);
    let s = ".sh"@;
    assert(script_path(dir, start, i1) =~= a + d1 + s);
    assert(script_path(dir, start, i2) =~= a + d2 + s);
    if script_path(dir, start, i1) == script_path(dir, start, i2) {
        assert((a + d1 + s).len() == (a + d2 + s).len());
        assert(d1.len() == d2.len());
        assert forall|j: int| 0 <= j < d1.len() implies d1[j] == d2[j] by {
            assert((a + d1 + s)[a.len() + j] == d1[j]);
            assert((a + d2 + s)[a.len() + j] == d2[j]);
        }
        assert(d1 =~= d2);
        lemma_dec_digits_injective(i1, i2);
        assert(false);
    }
}

/// Hands out the strictly increasing indices that keep the script names of
/// one run unique, in place of a process-wide counter.
#[derive(Debug)]
pub struct ScriptCounter {
    pub next: usize,
}

impl ScriptCounter {
    /// A fresh counter; indices start at one.
    pub fn new() -> (r: ScriptCounter)
        ensures
            r.next == 1,
    {
        ScriptCounter { next: 1 }
    }

    /// The next index, never handed out before.
    pub fn fresh_index(&mut self) -> (r: usize)
        requires
            old(self).next < usize::MAX,
        ensures
            r == old(self).next,
            final(self).next == old(self).next + 1,
    {
        let index = self.next;
        self.next = self.next + 1;
        index
    }
}

/// One ephemeral shell script, ready to be written to disk: its unique
/// path and its contents.
#[derive(Debug, PartialEq)]
pub struct ShellScript {
    pub path: String,
    pub contents: String,
}

impl ShellScript {
    /// Builds the script for one command entry: its path combines the
    /// directory, the process start stamp and the counter index, and its
    /// contents are the commands as given.
    pub fn new(directory: &str, commands: &str, start_millis: u128, index: usize) -> (r:
        ShellScript)
        ensures
            r.path@ == script_path(directory@, start_millis as nat, index as nat),
            r.contents@ == commands@,
    {
        let mut path = directory.to_owned();
        path.append("/");
        path.append(".sw-commands-");
        push_decimal(&mut path, start_millis);
        path.append("-");
        push_decimal(&mut path, index as u128);
        path.append(".sh");
        proof {
            assert(path@ =~= script_path(directory@, start_millis as nat, index as nat));
        }
        ShellScript { path, contents: commands.to_owned() }
    }

    /// Relies on `std::time::SystemTime::now`: the process start stamp,
    /// milliseconds since the Unix epoch. Nothing can be promised of the
    /// clock's reading.
    #[verifier::external_body]
    pub fn millis_since_epoch() -> u128 {
        std::time::SystemTime::now()
            .duration_since(std::time::UNIX_EPOCH)
            .expect("Time went backwards")
            .as_millis()
    }
}

} // verus!
