//! The command entry: the hard core of the runbook engine. A command entry
//! renders its command list as a fenced shell block, has its commands run
//! through an ephemeral shell script, folds the captured output back into
//! the markdown, and classifies the outcome against its `should_fail`
//! flag. Spawning the shell itself is the driver's business; everything
//! decided about the outcome is here.

use vstd::prelude::*;
use vstd::string::*;

use crate::strings::indent_opt;
use crate::strings::join_lines;
use crate::strings::join_nl;
use crate::strings::views_of;

verus! {

/// How a command entry's captured output is to be shown: whether at all,
/// under which caption, and as which fenced-block content type.
#[derive(Debug, PartialEq)]
pub struct CommandOutput {
    pub show: bool,
    pub caption: String,
    pub content_type: String,
}

impl CommandOutput {
    /// An output section with every field at its default.
    pub fn new() -> (r: CommandOutput)
        ensures
            r.show == true,
            r.caption@ == "_stdout_"@,
            r.content_type@ == ""@,
    {
        CommandOutput {
            show: Self::default_show_value(),
            caption: Self::default_caption_value(),
            content_type: Self::default_content_type_value(),
        }
    }

    /// An output section with the given caption and every other field at
    /// its default.
    pub fn with_caption(caption: String) -> (r: CommandOutput)
        ensures
            r.show == true,
            r.caption == caption,
            r.content_type@ == ""@,
    {
        CommandOutput {
            show: Self::default_show_value(),
            caption,
            content_type: Self::default_content_type_value(),
        }
    }

    /// Output is shown unless asked not to.
    pub fn default_show_value() -> (r: bool)
        ensures
            r == true,
    {
        true
    }

    /// The default caption over a shown stdout block.
    pub fn default_caption_value() -> (r: String)
        ensures
            r@ == "_stdout_"@,
    {
        String::from_str("_stdout_")
    }

    /// The default content type of a shown stdout block: untyped.
    pub fn default_content_type_value() -> (r: String)
        ensures
            r@ == ""@,
    {
        String::from_str("")
    }
}

/// Whether a tag list holds the `skip` tag.
pub open spec fn has_skip(tags: Seq<String>) -> bool {
    exists|i: int| 0 <= i < tags.len() && (#[trigger] tags[i])@ == "skip"@
}

/// A command entry of the runbook.
#[derive(Debug, PartialEq)]
pub struct CommandEntry {
    pub commands: Vec<String>,
    pub should_fail: bool,
    pub on_failure_commands: Option<Vec<String>>,
    pub working_dir: Option<String>,
    pub output: Option<CommandOutput>,
    pub tags: Option<Vec<String>>,
    pub indent: Option<usize>,
}

/// The section appended under a rendered command block for its captured
/// output: a captioned fenced block for stdout when there is any, then a
/// `_stderr_` captioned fenced block for stderr when there is any. Empty
/// captures are omitted entirely.
pub open spec fn output_markdown(
    caption: Seq<char>,
    content_type: Seq<char>,
    stdout: Seq<char>,
    stderr: Seq<char>,
) -> Seq<char> {
    (if stdout.len() == 0 {
        Seq::<char>::empty()
    } else {
        "\n"@ + caption + "\n\n```"@ + content_type + "\n"@ + stdout + "```\n"@
    }) + (if stderr.len() == 0 {
        Seq::<char>::empty()
    } else {
        "\n"@ + "_stderr_"@ + "\n\n```\n"@ + stderr + "```\n"@
    })
}

impl CommandEntry {
    /// The fenced shell block showing the commands exactly as written,
    /// wrapped in a `cd` subshell comment pair when a working directory
    /// override is set.
    pub open spec fn commands_markdown(self) -> Seq<char> {
        match self.working_dir {
            None => "```shell\n"@ + join_nl(views_of(self.commands@)) + "\n"@ + "```\n"@,
            Some(dir) => "```shell\n"@ + "# Running command from within the "@ + dir@
                + " directory\n"@ + "(cd '"@ + dir@ + "'\n"@ + join_nl(views_of(self.commands@))
                + "\n"@ + ")\n"@ + "```\n"@,
        }
    }

    /// The markdown of a successful run: the command block, plus the
    /// captured output when an output section is configured and shown.
    pub open spec fn success_markdown(self, stdout: Seq<char>, stderr: Seq<char>) -> Seq<char> {
        self.commands_markdown() + match self.output {
            Some(o) => if o.show {
                output_markdown(o.caption@, o.content_type@, stdout, stderr)
            } else {
                Seq::<char>::empty()
            },
            None => Seq::<char>::empty(),
        }
    }

    /// The markdown of a failed run: the command block, plus an `Error`
    /// captioned untyped dump of the captured output.
    pub open spec fn failure_markdown(self, stdout: Seq<char>, stderr: Seq<char>) -> Seq<char> {
        self.commands_markdown() + output_markdown("Error"@, ""@, stdout, stderr)
    }

    /// The directory the commands run in, given the context's current
    /// directory.
    pub open spec fn resolved_dir(self, base: Seq<char>) -> Seq<char> {
        match self.working_dir {
            None => base,
            Some(dir) => crate::paths::joined_path(base, dir@),
        }
    }

    /// Whether this entry is tagged to be skipped: rendered, never run.
    pub open spec fn spec_has_skip_tag(self) -> bool {
        match self.tags {
            None => false,
            Some(tags) => has_skip(tags@),
        }
    }

    /// Resolves the directory to run from: the working directory override
    /// joined onto the context's current directory, or that current
    /// directory unchanged.
    pub fn evaluate_current_dir(&self, base: &str) -> (r: String)
        ensures
            r@ == self.resolved_dir(base@),
    {
        match &self.working_dir {
            None => base.to_owned(),
            Some(dir) => crate::paths::join_path(base, dir.as_str()),
        }
    }

    /// The directory the commands run in, given a caller-chosen base.
    pub fn current_dir(&self, base: &str) -> (r: String)
        ensures
            r@ == self.resolved_dir(base@),
    {
        self.evaluate_current_dir(base)
    }

    /// The text of the ephemeral shell script: a shebang, a provenance
    /// comment, `set -e` so the script stops at the first failing command,
    /// and the commands themselves.
    pub fn format_shell_script(&self) -> (r: String)
        ensures
            r@ == "#!/bin/sh\n\n# Generated by the Sociable Weaver application\n# This file is automatically deleted once the execution completes\n\nset -e\n\n"@
                + join_nl(views_of(self.commands@)),
    {
        let mut commands = String::new();
        commands.append(
            "#!/bin/sh\n\n# Generated by the Sociable Weaver application\n# This file is automatically deleted once the execution completes\n\nset -e\n\n",
        );
        let joined = join_lines(&self.commands);
        commands.append(joined.as_str());
        proof {
            assert(commands@ =~= "#!/bin/sh\n\n# Generated by the Sociable Weaver application\n# This file is automatically deleted once the execution completes\n\nset -e\n\n"@
                + join_nl(views_of(self.commands@)));
        }
        commands
    }

    /// The text of the clean-up script run after a failure, if clean-up
    /// commands were declared. Unlike the main script it carries no
    /// `set -e`: every clean-up command runs even when an earlier one
    /// fails.
    pub fn evaluate_on_failure_commands(&self) -> (r: Option<String>)
        ensures
            r is Some <==> self.on_failure_commands is Some,
            r matches Some(script) ==> (self.on_failure_commands matches Some(cmds) && script@
                == "#!/bin/sh\n\n# Generated by the Sociable Weaver application\n# This file is automatically deleted once the execution completes\n# All commands in the script are executed even when a previous command fails as this is intended for clean up\n\n"@
                + join_nl(views_of(cmds@))),
    {
        match &self.on_failure_commands {
            None => None,
            Some(cmds) => {
                let mut commands = String::new();
                commands.append(
                    "#!/bin/sh\n\n# Generated by the Sociable Weaver application\n# This file is automatically deleted once the execution completes\n# All commands in the script are executed even when a previous command fails as this is intended for clean up\n\n",
                );
                let joined = join_lines(cmds);
                commands.append(joined.as_str());
                proof {
                    assert(commands@ =~= "#!/bin/sh\n\n# Generated by the Sociable Weaver application\n# This file is automatically deleted once the execution completes\n# All commands in the script are executed even when a previous command fails as this is intended for clean up\n\n"@
                        + join_nl(views_of(cmds@)));
                }
                Some(commands)
            },
        }
    }

    /// The fenced shell block showing the commands exactly as the user
    /// wrote them, never the generated script.
    pub fn format_commands_as_markdown(&self) -> (r: String)
        ensures
            r@ == self.commands_markdown(),
    {
        let mut markdown = String::new();
        markdown.append("```shell\n");
        if let Some(dir) = &self.working_dir {
            markdown.append("# Running command from within the ");
            markdown.append(dir.as_str());
            markdown.append(" directory\n");
            markdown.append("(cd '");
            markdown.append(dir.as_str());
            markdown.append("'\n");
        }
        let joined = join_lines(&self.commands);
        markdown.append(joined.as_str());
        markdown.append("\n");
        if self.working_dir.is_some() {
            markdown.append(")\n");
        }
        markdown.append("```\n");
        proof {
            match &self.working_dir {
                None => {
                    assert(markdown@ =~= self.commands_markdown());
                },
                Some(dir) => {
                    assert(markdown@ =~= self.commands_markdown());
                },
            }
        }
        markdown
    }

    /// The output section under a command block, from the captured stdout
    /// and stderr of the run.
    pub fn format_output_as_markdown(caption: &str, content_type: &str, stdout: &str, stderr: &str) -> (r: String)
        ensures
            r@ == output_markdown(caption@, content_type@, stdout@, stderr@),
    {
        let mut markdown = String::new();
        if !stdout.is_empty() {
            markdown.append("\n");
            markdown.append(caption);
            markdown.append("\n\n```");
            markdown.append(content_type);
            markdown.append("\n");
            markdown.append(stdout);
            markdown.append("```\n");
        }
        if !stderr.is_empty() {
            markdown.append("\n");
            markdown.append("_stderr_");
            markdown.append("\n\n```\n");
            markdown.append(stderr);
            markdown.append("```\n");
        }
        proof {
            assert(markdown@ =~= output_markdown(caption@, content_type@, stdout@, stderr@));
        }
        markdown
    }

    /// The console text of this entry: its commands, one per line.
    pub fn display_string(&self) -> (r: String)
        ensures
            r@ == join_nl(views_of(self.commands@)) + "\n"@,
    {
        let mut out = join_lines(&self.commands);
        out.append("\n");
        out
    }

    /// Applies this entry's optional indentation to its rendered markdown.
    pub fn add_indent(&self, markdown: String) -> (r: String)
        ensures
            r@ == indent_opt(markdown@, self.indent),
    {
        crate::strings::indent_by(markdown, &self.indent)
    }

    /// Whether the entry carries the `skip` tag.
    pub fn has_skip_tag(&self) -> (r: bool)
        ensures
            r == self.spec_has_skip_tag(),
    {
        match &self.tags {
            None => false,
            Some(tags) => {
                let mut i: usize = 0;
                while i < tags.len()
                    invariant
                        self.tags == Some(*tags),
                        i <= tags@.len(),
                        forall|j: int| 0 <= j < i ==> tags@[j]@ != "skip"@,
                    decreases tags@.len() - i,
                {
                    if crate::context::str_eq(tags[i].as_str(), "skip") {
                        proof {
                            assert(has_skip(tags@)) by {
                                assert((i as int) < tags@.len() && tags@[i as int]@ == "skip"@);
                            }
                        }
                        return true;
                    }
                    i = i + 1;
                }
                false
            },
        }
    }

    /// A skipped entry still renders its command block, indented as asked,
    /// and counts as a success; nothing is ever executed for it.
    pub fn render_skipped(&self) -> (r: String)
        ensures
            r@ == indent_opt(self.commands_markdown(), self.indent),
    {
        let markdown = self.format_commands_as_markdown();
        self.add_indent(markdown)
    }

    /// Whether the failure clean-up hook is to run: only when the process
    /// failed to start or exited unsuccessfully, and clean-up commands
    /// were declared. The hook does not depend on `should_fail`.
    pub fn needs_failure_hook(&self, started: bool, exit_ok: bool) -> (r: bool)
        ensures
            r == ((!started || !exit_ok) && self.on_failure_commands is Some),
    {
        (!started || !exit_ok) && self.on_failure_commands.is_some()
    }

    /// Folds the captured outcome of the run into this entry's markdown.
    /// The rendering succeeds exactly when `should_fail` disagrees with the
    /// process's exit success; on success the configured output section is
    /// appended when shown, on failure an `Error` captioned dump of the
    /// captured output is appended and the whole markdown comes back as
    /// the error value.
    pub fn render_outcome(&self, exit_ok: bool, stdout: &str, stderr: &str) -> (r: Result<
        String,
        String,
    >)
        ensures
            r is Ok <==> self.should_fail != exit_ok,
            r matches Ok(md) ==> md@ == indent_opt(
                self.success_markdown(stdout@, stderr@),
                self.indent,
            ),
            r matches Err(md) ==> md@ == indent_opt(
                self.failure_markdown(stdout@, stderr@),
                self.indent,
            ),
    {
        let mut markdown = self.format_commands_as_markdown();
        if self.should_fail != exit_ok {
            if let Some(command_output) = &self.output {
                if command_output.show {
                    let section = Self::format_output_as_markdown(
                        command_output.caption.as_str(),
                        command_output.content_type.as_str(),
                        stdout,
                        stderr,
                    );
                    markdown.append(section.as_str());
                }
            }
            proof {
                assert(markdown@ =~= self.success_markdown(stdout@, stderr@));
            }
            Ok(self.add_indent(markdown))
        } else {
            let section = Self::format_output_as_markdown("Error", "", stdout, stderr);
            markdown.append(section.as_str());
            proof {
                assert(markdown@ =~= self.failure_markdown(stdout@, stderr@));
            }
            Err(self.add_indent(markdown))
        }
    }
}

} // verus!
