//! The file-excerpt entry: shows a file, or a slice of its lines, as a
//! fenced code block whose language tag comes from an explicit content
//! type or from the path's extension. Reading the file itself is the
//! driver's business; everything done with the text once read — slicing,
//! normalizing the trailing newline, fencing, indenting — is decided here.

use vstd::prelude::*;
use vstd::string::*;

use crate::paths::last_index_of;
use crate::strings::block_of_lines;
use crate::strings::content_lines;
use crate::strings::indent_opt;
use crate::strings::lines_block;
use crate::strings::split_content_lines;
use crate::strings::views_of;

verus! {

/// `x` clamped into the range `0 ..= hi`.
pub open spec fn clamped(x: int, hi: int) -> int {
    if x < 0 {
        0
    } else if x > hi {
        hi
    } else {
        x
    }
}

/// The extension of a path: what follows the last `'.'` of its file name,
/// empty when the file name has no `'.'` past its first character.
pub open spec fn extension_of(path: Seq<char>) -> Seq<char> {
    let file = path.skip(last_index_of(path, '/') + 1);
    let dot = last_index_of(file, '.');
    if dot <= 0 {
        ""@
    } else {
        file.skip(dot + 1)
    }
}

/// A path with a home-directory alias resolved against the given home:
/// a leading `'~'` (with or without a following separator) is replaced by
/// the home directory, any other path — or any path when no home is
/// known — stays as written.
pub open spec fn resolved_path(path: Seq<char>, home: Option<Seq<char>>) -> Seq<char> {
    if path.len() > 0 && path[0] == '~' && home is Some {
        let stripped = if path.len() >= 2 && path[1] == '/' {
            path.skip(2)
        } else {
            path.skip(1)
        };
        home.unwrap() + "/"@ + stripped
    } else {
        path
    }
}

/// The slice of the file body the entry asks for: all of it without
/// options; otherwise the lines from `from_line` (1-based), at most
/// `number_of_lines` of them, each closed by its own newline.
pub open spec fn selected_block(
    content: Seq<char>,
    from_line: Option<usize>,
    number_of_lines: Option<usize>,
) -> Seq<char> {
    if from_line is None && number_of_lines is None {
        content
    } else {
        let all = content_lines(content);
        let start = match from_line {
            None => 0,
            Some(f) => clamped(f - 1, all.len() as int),
        };
        let rest = all.skip(start);
        let chosen = match number_of_lines {
            None => rest,
            Some(n) => rest.take(clamped(n as int, rest.len() as int)),
        };
        lines_block(chosen)
    }
}

/// A block with exactly one closing newline appended when it lacks one,
/// so the closing fence lands on its own line.
pub open spec fn normalized_block(block: Seq<char>) -> Seq<char> {
    if block.len() == 0 || block.last() != '\n' {
        block + "\n"@
    } else {
        block
    }
}

/// Relies on `dirs::home_dir`: the operating system's home directory, as
/// a string when it is valid Unicode. Nothing can be promised of the
/// environment's answer.
#[verifier::external_body]
fn home_dir_string() -> Option<String> {
    dirs::home_dir().and_then(|p| p.to_str().map(|s| s.to_string()))
}

/// A file-excerpt entry of the runbook.
#[derive(Debug, PartialEq)]
pub struct DisplayFileEntry {
    pub path: String,
    pub content_type: Option<String>,
    pub from_line: Option<usize>,
    pub number_of_lines: Option<usize>,
    pub tags: Option<Vec<String>>,
    pub indent: Option<usize>,
}

impl DisplayFileEntry {
    /// The fenced block's language tag: the explicit content type when one
    /// is given, otherwise the extension of the path as written.
    pub open spec fn spec_file_type(self) -> Seq<char> {
        match self.content_type {
            Some(c) => c@,
            None => extension_of(self.path@),
        }
    }

    /// What the entry renders to, given the file's text: the selected
    /// lines, closed by exactly one newline, inside a fence tagged with
    /// the file type, indented as asked.
    pub open spec fn display_markdown(self, content: Seq<char>) -> Seq<char> {
        indent_opt(
            "```"@ + self.spec_file_type() + "\n"@ + normalized_block(
                selected_block(content, self.from_line, self.number_of_lines),
            ) + "```\n"@,
            self.indent,
        )
    }

    /// Resolves a path against a home directory: a leading `'~'` is
    /// replaced by the home directory when one is known.
    pub fn resolve_path(path: &str, home: &Option<String>) -> (r: String)
        ensures
            r@ == resolved_path(
                path@,
                match *home {
                    None => None,
                    Some(h) => Some(h@),
                },
            ),
    {
        let n = path.unicode_len();
        if n > 0 && path.get_char(0) == '~' {
            if let Some(h) = home {
                let stripped = if n >= 2 && path.get_char(1) == '/' {
                    path.substring_char(2, n)
                } else {
                    path.substring_char(1, n)
                };
                let mut out = h.clone();
                out.append("/");
                out.append(stripped);
                proof {
                    if path@.len() >= 2 && path@[1] == '/' {
                        assert(path@.subrange(2, n as int) =~= path@.skip(2));
                    } else {
                        assert(path@.subrange(1, n as int) =~= path@.skip(1));
                    }
                }
                return out;
            }
        }
        path.to_owned()
    }

    /// The path to read, with a home-directory alias resolved against the
    /// environment's home directory. A path without the alias comes back
    /// as written; with it, the result is the alias resolved against
    /// whatever home the environment reported.
    pub fn path(&self) -> (r: String)
        ensures
            (self.path@.len() == 0 || self.path@[0] != '~') ==> r@ == self.path@,
            exists|home: Option<Seq<char>>| r@ == resolved_path(self.path@, home),
    {
        let home = home_dir_string();
        let r = Self::resolve_path(self.path.as_str(), &home);
        proof {
            let ghost h = match &home {
                None => None,
                Some(hs) => Some(hs@),
            };
            assert(r@ == resolved_path(self.path@, h));
        }
        r
    }

    /// The fenced block's language tag.
    pub fn file_type(&self) -> (r: String)
        ensures
            r@ == self.spec_file_type(),
    {
        match &self.content_type {
            Some(c) => c.clone(),
            None => {
                let path = self.path.as_str();
                let n = path.unicode_len();
                let file_start: usize = match crate::paths::find_last(path, '/') {
                    None => 0,
                    Some(k) => k + 1,
                };
                let file = path.substring_char(file_start, n);
                proof {
                    assert(file@ =~= self.path@.skip(last_index_of(self.path@, '/') + 1));
                }
                let file_len = file.unicode_len();
                match crate::paths::find_last(file, '.') {
                    None => {
                        proof {
                            reveal_strlit("");
                            assert(""@ =~= Seq::<char>::empty());
                        }
                        String::new()
                    },
                    Some(dot) => {
                        if dot == 0 {
                            proof {
                                reveal_strlit("");
                                assert(""@ =~= Seq::<char>::empty());
                            }
                            String::new()
                        } else {
                            let ext = file.substring_char(dot + 1, file_len);
                            proof {
                                assert(file@.subrange(dot + 1, file_len as int) =~= file@.skip(
                                    dot + 1,
                                ));
                            }
                            ext.to_owned()
                        }
                    },
                }
            },
        }
    }

    /// Applies this entry's optional indentation to its rendered markdown.
    pub fn add_indent(&self, markdown: String) -> (r: String)
        ensures
            r@ == indent_opt(markdown@, self.indent),
    {
        crate::strings::indent_by(markdown, &self.indent)
    }

    /// Renders the entry from the file's text: slices the asked-for lines,
    /// makes sure the block ends with exactly one newline, wraps it in a
    /// fence tagged with the file type, and indents the whole block as
    /// asked. A 1-based `from_line` of zero is a configuration error the
    /// caller must rule out.
    pub fn render_content(&self, content: &str) -> (r: String)
        requires
            self.from_line matches Some(f) ==> f >= 1,
        ensures
            r@ == self.display_markdown(content@),
    {
        let selected: String;
        if self.from_line.is_none() && self.number_of_lines.is_none() {
            selected = content.to_owned();
        } else {
            let lines = split_content_lines(content);
            let total = lines.len();
            let start: usize = match self.from_line {
                None => 0,
                Some(f) => if f - 1 > total {
                    total
                } else {
                    f - 1
                },
            };
            let end: usize = match self.number_of_lines {
                None => total,
                Some(m) => if m > total - start {
                    total
                } else {
                    start + m
                },
            };
            selected = block_of_lines(&lines, start, end);
            proof {
                let all = content_lines(content@);
                let spec_start = match self.from_line {
                    None => 0int,
                    Some(f) => clamped(f - 1, all.len() as int),
                };
                assert(spec_start == start as int);
                let rest = all.skip(spec_start);
                let chosen = match self.number_of_lines {
                    None => rest,
                    Some(m) => rest.take(clamped(m as int, rest.len() as int)),
                };
                assert(views_of(lines@).subrange(start as int, end as int) =~~= chosen);
            }
        }
        let mut block = selected;
        let block_len = block.as_str().unicode_len();
        if block_len == 0 || block.as_str().get_char(block_len - 1) != '\n' {
            block.append("\n");
        }
        proof {
            assert(block@ =~= normalized_block(
                selected_block(content@, self.from_line, self.number_of_lines),
            ));
        }
        let file_type = self.file_type();
        let mut md = String::new();
        md.append("```");
        md.append(file_type.as_str());
        md.append("\n");
        md.append(block.as_str());
        md.append("```\n");
        proof {
            assert(md@ =~= "```"@ + self.spec_file_type() + "\n"@ + block@ + "```\n"@);
        }
        self.add_indent(md)
    }
}

} // verus!
