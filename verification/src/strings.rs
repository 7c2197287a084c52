//! The indentation utility shared by every entry renderer: re-indents a
//! multi-line block of text without disturbing blank lines or trailing
//! newlines, counting pad widths in Unicode scalar values.

use vstd::prelude::*;
use vstd::string::*;

verus! {

/// A run of `n` space characters.
pub open spec fn spaces(n: nat) -> Seq<char>
    decreases n,
{
    if n == 0 {
        Seq::empty()
    } else {
        spaces((n - 1) as nat).push(' ')
    }
}

/// What indenting the suffix of a text produces, walking character by
/// character. `at_line_start` says whether the suffix begins a new line;
/// a line that starts with a character other than `'\n'` is prefixed with
/// `amount` spaces, while an empty line (its first character is `'\n'`)
/// is left untouched.
pub open spec fn indented_suffix(text: Seq<char>, amount: nat, at_line_start: bool) -> Seq<char>
    decreases text.len(),
{
    if text.len() == 0 {
        Seq::empty()
    } else {
        let c = text[0];
        let rest = indented_suffix(text.drop_first(), amount, c == '\n');
        if at_line_start && c != '\n' {
            spaces(amount) + seq![c] + rest
        } else {
            seq![c] + rest
        }
    }
}

/// The whole text, indented by `amount` spaces at the start of every
/// non-empty line.
pub open spec fn indented(text: Seq<char>, amount: nat) -> Seq<char> {
    indented_suffix(text, amount, true)
}

/// The text under an optional indentation request: unchanged without one,
/// indented by the requested amount with one.
pub open spec fn indent_opt(text: Seq<char>, indent: Option<usize>) -> Seq<char> {
    match indent {
        None => text,
        Some(amount) => indented(text, amount as nat),
    }
}

/// The lines of a text, split on `'\n'`: a text always has at least one
/// line, and a `'\n'` at the very end yields a final empty line.
pub open spec fn line_split(text: Seq<char>) -> Seq<Seq<char>>
    decreases text.len(),
{
    if text.len() == 0 {
        seq![Seq::<char>::empty()]
    } else if text[0] == '\n' {
        seq![Seq::<char>::empty()] + line_split(text.drop_first())
    } else {
        let rest = line_split(text.drop_first());
        seq![seq![text[0]] + rest[0]] + rest.drop_first()
    }
}

/// Lines joined back together with a single `'\n'` between each pair.
pub open spec fn join_nl(lines: Seq<Seq<char>>) -> Seq<char>
    decreases lines.len(),
{
    if lines.len() == 0 {
        Seq::empty()
    } else if lines.len() == 1 {
        lines[0]
    } else {
        lines[0] + seq!['\n'] + join_nl(lines.drop_first())
    }
}

/// One line, indented: an empty line stays empty, any other line is
/// prefixed with exactly `amount` spaces.
pub open spec fn indent_line(line: Seq<char>, amount: nat) -> Seq<char> {
    if line.len() == 0 {
        line
    } else {
        spaces(amount) + line
    }
}

/// How many times `c` occurs in `text`.
pub open spec fn count_char(text: Seq<char>, c: char) -> nat
    decreases text.len(),
{
    if text.len() == 0 {
        0
    } else {
        (if text[0] == c {
            1nat
        } else {
            0nat
        }) + count_char(text.drop_first(), c)
    }
}

/// Relies on `String::push`: appends exactly one character at the end.
#[verifier::external_body]
pub(crate) fn push_char(s: &mut String, c: char)
    ensures
        final(s)@ == old(s)@ + seq![c],
{
    s.push(c)
}

/// Builds the pad of `amount` spaces that every indented line receives.
pub fn make_padding(amount: usize) -> (r: String)
    ensures
        r@ == spaces(amount as nat),
{
    let mut padding = String::new();
    let mut i: usize = 0;
    while i < amount
        invariant
            i <= amount,
            padding@ == spaces(i as nat),
        decreases amount - i,
    {
        push_char(&mut padding, ' ');
        proof {
            assert(spaces((i + 1) as nat) =~= spaces(i as nat) + seq![' ']);
        }
        i = i + 1;
    }
    padding
}

/// Appends `line`, prefixed by `padding`, onto `indented` — unless the line
/// is empty, in which case nothing at all is appended and the blank line
/// stays blank.
pub fn pad_and_append_if_not_empty(padding: &str, line: &str, indented: &mut String)
    ensures
        line@.len() == 0 ==> final(indented)@ == old(indented)@,
        line@.len() != 0 ==> final(indented)@ == old(indented)@ + padding@ + line@,
{
    if !line.is_empty() {
        indented.append(padding);
        indented.append(line);
    }
}

/// Re-indents `text`: with no amount the text comes back unchanged; with an
/// amount every non-empty line is prefixed by that many spaces, blank lines
/// stay blank, and every `'\n'` boundary is preserved.
pub fn indent_by(text: String, indent: &Option<usize>) -> (r: String)
    ensures
        indent is None ==> r@ == text@,
        *indent matches Some(amount) ==> r@ == indented(text@, amount as nat),
{
    match indent {
        None => text,
        Some(amount) => {
            let padding = make_padding(*amount);
            let n_chars: usize = text.as_str().unicode_len();
            let mut out = String::new();
            let mut at_line_start = true;
            let mut i: usize = 0;
            proof {
                assert(text@.skip(0) =~= text@);
                assert(out@ + indented_suffix(text@, *amount as nat, true)
                    =~= indented_suffix(text@, *amount as nat, true));
            }
            while i < n_chars
                invariant
                    i <= n_chars,
                    n_chars == text@.len(),
                    padding@ == spaces(*amount as nat),
                    out@ + indented_suffix(text@.skip(i as int), *amount as nat, at_line_start)
                        == indented(text@, *amount as nat),
                decreases n_chars - i,
            {
                let c = text.as_str().get_char(i);
                let ghost prev = out@;
                let ghost suffix = text@.skip(i as int);
                proof {
                    assert(suffix[0] == text@[i as int]);
                    assert(suffix.drop_first() =~= text@.skip(i as int + 1));
                }
                if at_line_start && c != '\n' {
                    out.append(padding.as_str());
                    push_char(&mut out, c);
                    proof {
                        assert(out@ =~= prev + spaces(*amount as nat) + seq![c]);
                        assert(out@ + indented_suffix(text@.skip(i as int + 1), *amount as nat, c == '\n')
                            =~= prev + indented_suffix(suffix, *amount as nat, at_line_start));
                    }
                } else {
                    push_char(&mut out, c);
                    proof {
                        assert(out@ + indented_suffix(text@.skip(i as int + 1), *amount as nat, c == '\n')
                            =~= prev + indented_suffix(suffix, *amount as nat, at_line_start));
                    }
                }
                at_line_start = c == '\n';
                i = i + 1;
            }
            proof {
                assert(text@.skip(n_chars as int) =~= Seq::<char>::empty());
                assert(out@ + Seq::<char>::empty() =~= out@);
            }
            out
        }
    }
}

/// The character sequences behind a list of owned lines.
pub open spec fn views_of(lines: Seq<String>) -> Seq<Seq<char>> {
    lines.map_values(|s: String| s@)
}

/// Taking one more line of a list appends that line's characters to the
/// viewed prefix.
proof fn lemma_views_of_take_succ(lines: Seq<String>, i: int)
    requires
        0 <= i < lines.len(),
    ensures
        views_of(lines.take(i + 1)) == views_of(lines.take(i)).push(lines[i]@),
{
    let a = views_of(lines.take(i + 1));
    let b = views_of(lines.take(i)).push(lines[i]@);
    assert forall|j: int| 0 <= j < a.len() implies a[j] == b[j] by {
        assert(lines.take(i + 1)[j] == lines[j]);
        if j < i {
            assert(lines.take(i)[j] == lines[j]);
        }
    }
    assert(a =~= b);
}

/// Joins the given lines with a single `'\n'` between each pair, the way a
/// command list or a markdown body is stitched into one block.
pub fn join_lines(lines: &Vec<String>) -> (r: String)
    ensures
        r@ == join_nl(views_of(lines@)),
{
    let mut out = String::new();
    let mut i: usize = 0;
    while i < lines.len()
        invariant
            i <= lines.len(),
            i == 0 ==> out@ == Seq::<char>::empty(),
            i > 0 ==> out@ == join_nl(views_of(lines@.take(i as int))),
        decreases lines.len() - i,
    {
        let ghost prefix = views_of(lines@.take(i as int));
        if i > 0 {
            out.append("\n");
            proof {
                reveal_strlit("\n");
                assert("\n"@ =~= seq!['\n']);
            }
        }
        out.append(lines[i].as_str());
        proof {
            lemma_views_of_take_succ(lines@, i as int);
            let next = views_of(lines@.take(i as int + 1));
            assert(next == prefix.push(lines@[i as int]@));
            if i > 0 {
                lemma_join_nl_push(prefix, lines@[i as int]@);
            } else {
                assert(next[0] == lines@[i as int]@);
                assert(join_nl(next) == next[0]);
                assert(out@ =~= lines@[i as int]@);
            }
        }
        i = i + 1;
    }
    proof {
        if lines@.len() > 0 {
            assert(lines@.take(lines@.len() as int) =~= lines@);
        } else {
            assert(views_of(lines@).len() == 0);
        }
    }
    out
}

/// Appending one more line to a non-empty list extends the joined text by a
/// `'\n'` and that line.
proof fn lemma_join_nl_push(s: Seq<Seq<char>>, x: Seq<char>)
    requires
        s.len() >= 1,
    ensures
        join_nl(s.push(x)) == join_nl(s) + seq!['\n'] + x,
    decreases s.len(),
{
    if s.len() == 1 {
        assert(s.push(x).len() == 2);
        assert(s.push(x)[0] == s[0]);
        assert(s.push(x).drop_first() =~= seq![x]);
        assert(join_nl(seq![x]) == x);
        assert(join_nl(s.push(x)) == s.push(x)[0] + seq!['\n'] + join_nl(s.push(x).drop_first()));
        assert(join_nl(s) + seq!['\n'] + x =~= s[0] + seq!['\n'] + x);
    } else {
        assert(s.push(x).drop_first() =~~= s.drop_first().push(x));
        lemma_join_nl_push(s.drop_first(), x);
        assert(join_nl(s.push(x)) =~= join_nl(s) + seq!['\n'] + x);
    }
}

/// Occurrences in a concatenation add up.
proof fn lemma_count_char_concat(a: Seq<char>, b: Seq<char>, c: char)
    ensures
        count_char(a + b, c) == count_char(a, c) + count_char(b, c),
    decreases a.len(),
{
    if a.len() == 0 {
        assert(a + b =~= b);
    } else {
        assert((a + b).drop_first() =~= a.drop_first() + b);
        lemma_count_char_concat(a.drop_first(), b, c);
    }
}

/// A one-character text holds one occurrence of that character and none of
/// any other.
proof fn lemma_count_char_one(c: char, d: char)
    ensures
        count_char(seq![c], d) == if c == d {
            1nat
        } else {
            0nat
        },
{
    assert(seq![c].drop_first() =~= Seq::<char>::empty());
    assert(count_char(Seq::<char>::empty(), d) == 0);
}

/// A pad of spaces holds no newline.
proof fn lemma_spaces_no_nl(n: nat)
    ensures
        count_char(spaces(n), '\n') == 0,
    decreases n,
{
    if n > 0 {
        lemma_spaces_no_nl((n - 1) as nat);
        assert(spaces(n) =~= spaces((n - 1) as nat) + seq![' ']);
        lemma_count_char_concat(spaces((n - 1) as nat), seq![' '], '\n');
        lemma_count_char_one(' ', '\n');
    }
}

/// A text has exactly one more line than it has newline characters.
pub(crate) proof fn lemma_line_split_len(text: Seq<char>)
    ensures
        line_split(text).len() == count_char(text, '\n') + 1,
    decreases text.len(),
{
    if text.len() > 0 {
        lemma_line_split_len(text.drop_first());
    }
}

/// No line produced by splitting contains a newline of its own.
proof fn lemma_line_split_no_nl(text: Seq<char>)
    ensures
        forall|i: int|
            0 <= i < line_split(text).len() ==> count_char(
                #[trigger] line_split(text)[i],
                '\n',
            ) == 0,
    decreases text.len(),
{
    if text.len() > 0 {
        lemma_line_split_no_nl(text.drop_first());
        lemma_line_split_len(text.drop_first());
    }
    let result = line_split(text);
    assert forall|i: int| 0 <= i < result.len() implies count_char(
        #[trigger] result[i],
        '\n',
    ) == 0 by {
        if text.len() == 0 {
            assert(count_char(Seq::<char>::empty(), '\n') == 0);
        } else if text[0] == '\n' {
            if i == 0 {
                assert(count_char(Seq::<char>::empty(), '\n') == 0);
            } else {
                assert(result[i] == line_split(text.drop_first())[i - 1]);
            }
        } else {
            let rest = line_split(text.drop_first());
            if i == 0 {
                assert(result[0] == seq![text[0]] + rest[0]);
                lemma_count_char_concat(seq![text[0]], rest[0], '\n');
                lemma_count_char_one(text[0], '\n');
            } else {
                assert(result[i] == rest.drop_first()[i - 1]);
                assert(rest.drop_first()[i - 1] == rest[i]);
            }
        }
    }
}

/// A text with no newline splits into itself alone.
proof fn lemma_line_split_single(l: Seq<char>)
    requires
        count_char(l, '\n') == 0,
    ensures
        line_split(l) == seq![l],
    decreases l.len(),
{
    if l.len() == 0 {
        assert(line_split(l) =~~= seq![l]);
    } else {
        assert(l[0] != '\n');
        lemma_line_split_single(l.drop_first());
        let rest = line_split(l.drop_first());
        assert(rest == seq![l.drop_first()]);
        assert(seq![l[0]] + l.drop_first() =~= l);
        assert(line_split(l) =~~= seq![l]);
    }
}

/// Splitting `a + '\n' + b` with a newline-free `a` peels off `a` as the
/// first line.
proof fn lemma_line_split_concat_nl(a: Seq<char>, b: Seq<char>)
    requires
        count_char(a, '\n') == 0,
    ensures
        line_split(a + seq!['\n'] + b) == seq![a] + line_split(b),
    decreases a.len(),
{
    if a.len() == 0 {
        let t = a + seq!['\n'] + b;
        assert(t[0] == '\n');
        assert(t.drop_first() =~= b);
        assert(line_split(t) =~~= seq![a] + line_split(b));
    } else {
        let t = a + seq!['\n'] + b;
        assert(t[0] == a[0]);
        assert(a[0] != '\n');
        assert(t.drop_first() =~= a.drop_first() + seq!['\n'] + b);
        lemma_line_split_concat_nl(a.drop_first(), b);
        let rest = line_split(t.drop_first());
        lemma_line_split_len(b);
        assert(rest[0] == a.drop_first());
        assert(rest.drop_first() =~~= line_split(b));
        assert(seq![t[0]] + rest[0] =~= a);
        assert(line_split(t) =~~= seq![a] + line_split(b));
    }
}

/// Splitting undoes joining, as long as every joined line is newline-free.
proof fn lemma_line_split_join(lines: Seq<Seq<char>>)
    requires
        lines.len() >= 1,
        forall|i: int|
            0 <= i < lines.len() ==> count_char(#[trigger] lines[i], '\n') == 0,
    ensures
        line_split(join_nl(lines)) == lines,
    decreases lines.len(),
{
    if lines.len() == 1 {
        lemma_line_split_single(lines[0]);
        assert(line_split(join_nl(lines)) =~~= lines);
    } else {
        lemma_line_split_join(lines.drop_first());
        lemma_line_split_concat_nl(lines[0], join_nl(lines.drop_first()));
        assert(line_split(join_nl(lines)) =~~= lines);
    }
}

/// The character-by-character indentation equals the line-by-line one: pad
/// every line of the split (first line only when a new line starts there)
/// and join the result back with newlines.
proof fn lemma_indented_suffix_structure(text: Seq<char>, amount: nat)
    ensures
        indented_suffix(text, amount, true) == join_nl(
            line_split(text).map_values(|l: Seq<char>| indent_line(l, amount)),
        ),
        indented_suffix(text, amount, false) == join_nl(
            seq![line_split(text)[0]] + line_split(text).drop_first().map_values(
                |l: Seq<char>| indent_line(l, amount),
            ),
        ),
    decreases text.len(),
{
    let f = |l: Seq<char>| indent_line(l, amount);
    lemma_line_split_len(text);
    if text.len() == 0 {
        assert(line_split(text).map_values(f) =~~= seq![Seq::<char>::empty()]);
        assert(seq![line_split(text)[0]] + line_split(text).drop_first().map_values(f)
            =~~= seq![Seq::<char>::empty()]);
    } else {
        let c = text[0];
        let rest = text.drop_first();
        lemma_indented_suffix_structure(rest, amount);
        lemma_line_split_len(rest);
        if c == '\n' {
            let mapped_rest = line_split(rest).map_values(f);
            assert(line_split(text).map_values(f) =~~= seq![Seq::<char>::empty()] + mapped_rest);
            assert(join_nl(seq![Seq::<char>::empty()] + mapped_rest) =~= seq!['\n'] + join_nl(
                mapped_rest,
            )) by {
                assert((seq![Seq::<char>::empty()] + mapped_rest).drop_first() =~~= mapped_rest);
            }
            assert(indented_suffix(text, amount, true) =~= seq!['\n'] + join_nl(mapped_rest));
            let tail = seq![line_split(text)[0]] + line_split(text).drop_first().map_values(f);
            assert(tail =~~= seq![Seq::<char>::empty()] + mapped_rest);
            assert(indented_suffix(text, amount, false) =~= seq!['\n'] + join_nl(mapped_rest));
        } else {
            let sub = line_split(rest);
            let head = seq![c] + sub[0];
            assert(line_split(text) =~~= seq![head] + sub.drop_first());
            let rest_false = seq![sub[0]] + sub.drop_first().map_values(f);
            // at a line start: the head line is padded whole
            let mapped = line_split(text).map_values(f);
            assert(mapped[0] == indent_line(head, amount));
            assert(head.len() > 0);
            assert(indent_line(head, amount) == spaces(amount) + head);
            assert(mapped.drop_first() =~~= sub.drop_first().map_values(f));
            if sub.len() == 1 {
                assert(rest_false =~~= seq![sub[0]]);
                assert(indented_suffix(rest, amount, false) == sub[0]);
                assert(indented_suffix(text, amount, true) =~= spaces(amount) + (seq![c] + sub[0]));
                assert(mapped =~~= seq![indent_line(head, amount)]);
                assert(join_nl(mapped) == indent_line(head, amount));
                assert(indented_suffix(text, amount, true) =~= join_nl(mapped));
                // mid-line: the head line is continued unpadded
                let tail = seq![line_split(text)[0]] + line_split(text).drop_first().map_values(f);
                assert(tail =~~= seq![head]);
                assert(indented_suffix(text, amount, false) =~= seq![c] + sub[0]);
                assert(join_nl(tail) == head);
            } else {
                assert(indented_suffix(rest, amount, false) == join_nl(rest_false));
                assert(join_nl(rest_false) =~= sub[0] + seq!['\n'] + join_nl(
                    sub.drop_first().map_values(f),
                )) by {
                    assert(rest_false.len() == 1 + sub.drop_first().map_values(f).len());
                    assert(rest_false[0] == sub[0]);
                    assert(rest_false.drop_first() =~~= sub.drop_first().map_values(f));
                }
                assert(join_nl(mapped) =~= indent_line(head, amount) + seq!['\n'] + join_nl(
                    sub.drop_first().map_values(f),
                )) by {
                    assert(mapped.len() == 1 + sub.drop_first().map_values(f).len());
                    assert(mapped.drop_first() =~~= sub.drop_first().map_values(f));
                }
                assert(indented_suffix(text, amount, true) =~= spaces(amount) + seq![c] + (sub[0]
                    + seq!['\n'] + join_nl(sub.drop_first().map_values(f))));
                assert(indented_suffix(text, amount, true) =~= join_nl(mapped));
                // mid-line: the head line is continued unpadded
                let tail = seq![line_split(text)[0]] + line_split(text).drop_first().map_values(f);
                assert(tail[0] == head);
                assert(tail.drop_first() =~~= sub.drop_first().map_values(f));
                assert(join_nl(tail) =~= head + seq!['\n'] + join_nl(
                    sub.drop_first().map_values(f),
                ));
                assert(indented_suffix(text, amount, false) =~= seq![c] + (sub[0] + seq!['\n']
                    + join_nl(sub.drop_first().map_values(f))));
                assert(indented_suffix(text, amount, false) =~= join_nl(tail));
            }
        }
    }
}

/// The lines of a file body, the way a line iterator reads them: a
/// trailing newline closes the last line instead of opening an empty one,
/// and an empty body has no lines at all.
pub open spec fn content_lines(text: Seq<char>) -> Seq<Seq<char>> {
    if line_split(text).last().len() == 0 {
        line_split(text).drop_last()
    } else {
        line_split(text)
    }
}

/// A block built from whole lines: every line, even the last, is closed by
/// its own newline.
pub open spec fn lines_block(lines: Seq<Seq<char>>) -> Seq<char>
    decreases lines.len(),
{
    if lines.len() == 0 {
        Seq::empty()
    } else {
        lines[0] + seq!['\n'] + lines_block(lines.drop_first())
    }
}

/// Appending a newline to a text closes its last line and opens a new
/// empty one.
pub(crate) proof fn lemma_line_split_push_nl(x: Seq<char>)
    ensures
        line_split(x.push('\n')) == line_split(x).push(Seq::<char>::empty()),
    decreases x.len(),
{
    lemma_line_split_len(x);
    if x.len() == 0 {
        assert(x.push('\n') =~= seq!['\n']);
        assert(seq!['\n'].drop_first() =~= Seq::<char>::empty());
        assert(line_split(Seq::<char>::empty()) == seq![Seq::<char>::empty()]);
        assert(line_split(x.push('\n')) =~~= line_split(x).push(Seq::<char>::empty()));
    } else {
        assert(x.push('\n').drop_first() =~= x.drop_first().push('\n'));
        lemma_line_split_push_nl(x.drop_first());
        lemma_line_split_len(x.drop_first());
        assert(x.push('\n')[0] == x[0]);
        if x[0] == '\n' {
            assert(line_split(x.push('\n')) =~~= line_split(x).push(Seq::<char>::empty()));
        } else {
            let r = line_split(x.drop_first());
            let r2 = line_split(x.drop_first().push('\n'));
            assert(r2 == r.push(Seq::<char>::empty()));
            assert(r2[0] == r[0]);
            assert(r2.drop_first() =~~= r.drop_first().push(Seq::<char>::empty()));
            assert(line_split(x.push('\n')) =~~= line_split(x).push(Seq::<char>::empty()));
        }
    }
}

/// Appending any other character to a text extends its last line.
pub(crate) proof fn lemma_line_split_push_other(x: Seq<char>, c: char)
    requires
        c != '\n',
    ensures
        line_split(x.push(c)) == line_split(x).drop_last().push(line_split(x).last().push(c)),
    decreases x.len(),
{
    lemma_line_split_len(x);
    if x.len() == 0 {
        assert(x.push(c) =~= seq![c]);
        assert(seq![c].drop_first() =~= Seq::<char>::empty());
        assert(line_split(Seq::<char>::empty()) == seq![Seq::<char>::empty()]);
        assert(Seq::<char>::empty().push(c) =~= seq![c]);
        assert(line_split(x.push(c)) =~~= line_split(x).drop_last().push(
            line_split(x).last().push(c),
        ));
    } else {
        assert(x.push(c).drop_first() =~= x.drop_first().push(c));
        lemma_line_split_push_other(x.drop_first(), c);
        lemma_line_split_len(x.drop_first());
        assert(x.push(c)[0] == x[0]);
        let r = line_split(x.drop_first());
        let r2 = line_split(x.drop_first().push(c));
        if x[0] == '\n' {
            assert(line_split(x.push(c)) =~~= line_split(x).drop_last().push(
                line_split(x).last().push(c),
            ));
        } else {
            if r.len() == 1 {
                assert(r2[0] == r[0].push(c));
                assert(line_split(x) =~~= seq![seq![x[0]] + r[0]]);
                assert((seq![x[0]] + r[0]).push(c) =~= seq![x[0]] + r[0].push(c));
                assert(line_split(x.push(c)) =~~= line_split(x).drop_last().push(
                    line_split(x).last().push(c),
                ));
            } else {
                assert(r2[0] == r[0]);
                assert(r2.drop_first() =~~= r.drop_first().drop_last().push(r.last().push(c)));
                assert(line_split(x.push(c)) =~~= line_split(x).drop_last().push(
                    line_split(x).last().push(c),
                ));
            }
        }
    }
}

/// Splits a file body into its lines, the way a line iterator reads them.
pub fn split_content_lines(content: &str) -> (r: Vec<String>)
    ensures
        views_of(r@) == content_lines(content@),
{
    let n = content.unicode_len();
    let mut out: Vec<String> = Vec::new();
    let mut cur = String::new();
    let mut i: usize = 0;
    proof {
        assert(content@.take(0) =~= Seq::<char>::empty());
        assert(line_split(content@.take(0)) =~~= views_of(out@).push(cur@));
    }
    while i < n
        invariant
            i <= n,
            n == content@.len(),
            line_split(content@.take(i as int)) == views_of(out@).push(cur@),
        decreases n - i,
    {
        let c = content.get_char(i);
        let ghost out0 = out@;
        let ghost cur0 = cur@;
        proof {
            assert(content@.take(i as int + 1) =~= content@.take(i as int).push(
                content@[i as int],
            ));
        }
        if c == '\n' {
            out.push(cur);
            cur = String::new();
            proof {
                lemma_line_split_push_nl(content@.take(i as int));
                assert(views_of(out@) =~= views_of(out0).push(cur0));
                assert(line_split(content@.take(i as int + 1)) =~~= views_of(out@).push(cur@));
            }
        } else {
            push_char(&mut cur, c);
            proof {
                lemma_line_split_push_other(content@.take(i as int), c);
                let ls = views_of(out0).push(cur0);
                assert(ls.drop_last() =~~= views_of(out0));
                assert(ls.last() == cur0);
                assert(cur@ =~= cur0.push(c));
                assert(line_split(content@.take(i as int + 1)) =~~= views_of(out@).push(cur@));
            }
        }
        i = i + 1;
    }
    proof {
        assert(content@.take(n as int) =~= content@);
    }
    if !cur.as_str().is_empty() {
        let ghost out0 = out@;
        let ghost cur0 = cur@;
        out.push(cur);
        proof {
            let ls = line_split(content@);
            assert(ls.last() == cur0);
            assert(views_of(out@) =~= views_of(out0).push(cur0));
            assert(views_of(out@) =~~= content_lines(content@));
        }
    } else {
        proof {
            let ls = line_split(content@);
            assert(ls.last() == cur@);
            assert(ls.drop_last() =~~= views_of(out@));
        }
    }
    out
}

/// Builds the block of the lines from `start` (inclusive) to `end`
/// (exclusive), each closed by its own newline.
pub fn block_of_lines(lines: &Vec<String>, start: usize, end: usize) -> (r: String)
    requires
        start <= end <= lines@.len(),
    ensures
        r@ == lines_block(views_of(lines@).subrange(start as int, end as int)),
{
    let ghost all = views_of(lines@);
    let mut out = String::new();
    let mut k: usize = start;
    proof {
        assert(out@ + lines_block(all.subrange(start as int, end as int)) =~= lines_block(
            all.subrange(start as int, end as int),
        ));
    }
    while k < end
        invariant
            start <= k <= end,
            end <= all.len(),
            all == views_of(lines@),
            out@ + lines_block(all.subrange(k as int, end as int)) == lines_block(
                all.subrange(start as int, end as int),
            ),
        decreases end - k,
    {
        let ghost prev = out@;
        let ghost suffix = all.subrange(k as int, end as int);
        out.append(lines[k].as_str());
        out.append("\n");
        proof {
            reveal_strlit("\n");
            assert(suffix[0] == all[k as int]);
            assert(suffix.drop_first() =~= all.subrange(k as int + 1, end as int));
            assert(out@ + lines_block(all.subrange(k as int + 1, end as int)) =~= prev
                + lines_block(suffix));
        }
        k = k + 1;
    }
    proof {
        assert(all.subrange(end as int, end as int) =~= Seq::<Seq<char>>::empty());
        assert(out@ + lines_block(Seq::<Seq<char>>::empty()) =~= out@);
    }
    out
}

/// Indenting never disturbs the line structure: the indented text has the
/// same number of lines, every blank line stays blank, every other line is
/// prefixed with exactly `amount` spaces, and the count of newline
/// characters is unchanged.
pub proof fn lemma_indent_preserves_lines(text: Seq<char>, amount: nat)
    ensures
        line_split(indented(text, amount)) == line_split(text).map_values(
            (|l: Seq<char>| indent_line(l, amount)),
        ),
        count_char(indented(text, amount), '\n') == count_char(text, '\n'),
{
    let f = |l: Seq<char>| indent_line(l, amount);
    lemma_indented_suffix_structure(text, amount);
    lemma_line_split_len(text);
    lemma_line_split_no_nl(text);
    let mapped = line_split(text).map_values(f);
    assert forall|i: int| 0 <= i < mapped.len() implies count_char(
        #[trigger] mapped[i],
        '\n',
    ) == 0 by {
        lemma_spaces_no_nl(amount);
        lemma_count_char_concat(spaces(amount), line_split(text)[i], '\n');
    }
    lemma_line_split_join(mapped);
    lemma_line_split_len(indented(text, amount));
}

} // verus!
