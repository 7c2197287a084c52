use sociable_weaver::command::CommandEntry;
use sociable_weaver::command::CommandOutput;

fn plain_entry(commands: Vec<String>) -> CommandEntry {
    CommandEntry {
        commands,
        should_fail: false,
        on_failure_commands: None,
        working_dir: None,
        output: None,
        tags: None,
        indent: None,
    }
}

#[test]
fn return_the_give_path_when_working_dir_is_missing() {
    let command = plain_entry(vec!["date".to_string()]);
    let current_dir = "/base";
    let result = command.evaluate_current_dir(current_dir);
    assert_eq!(current_dir, result);
}

#[test]
fn return_the_constructed_path_when_working_dir_is_relative() {
    let mut command = plain_entry(vec!["date".to_string()]);
    command.working_dir = Some("test".to_string());
    let result = command.evaluate_current_dir("/base");
    assert_eq!("/base/test", result);
}

#[test]
fn return_the_working_dir_when_it_is_absolute() {
    let mut command = plain_entry(vec!["date".to_string()]);
    command.working_dir = Some("/test".to_string());
    let result = command.evaluate_current_dir("/base");
    assert_eq!("/test", result);
}

#[test]
fn current_dir_resolves_like_evaluate_current_dir() {
    let mut command = plain_entry(vec!["date".to_string()]);
    assert_eq!("/base", command.current_dir("/base"));
    command.working_dir = Some("test".to_string());
    assert_eq!("/base/test", command.current_dir("/base"));
    command.working_dir = Some("/test".to_string());
    assert_eq!("/test", command.current_dir("/base"));
}

#[test]
fn run_multiple_commands() {
    /* Given */
    let entry = plain_entry(vec!["echo 1".to_string(), "echo 2".to_string()]);

    /* When: the two echoes exit successfully and print their lines */
    let md = entry.render_outcome(true, "1\n2\n", "");

    /* Then */
    assert_eq!(
        Ok(r#"```shell
echo 1
echo 2
```
"#
        .to_string()),
        md
    );
}

#[test]
fn run_indented_commands() {
    /* Given */
    let mut entry = plain_entry(vec!["echo 'Test'".to_string()]);
    entry.output = Some(CommandOutput::new());
    entry.indent = Some(3);

    /* When: the echo exits successfully and prints its line */
    let md = entry.render_outcome(true, "Test\n", "");

    /* Then */
    assert_eq!(
        Ok(r#"   ```shell
   echo 'Test'
   ```

   _stdout_

   ```
   Test
   ```
"#
        .to_string()),
        md
    );
}

#[test]
fn run_commands_in_working_dir() {
    /* Given */
    let mut entry = plain_entry(vec!["echo 1".to_string(), "echo 2".to_string()]);
    entry.working_dir = Some("target".to_string());

    /* When: the two echoes exit successfully and print their lines */
    let md = entry.render_outcome(true, "1\n2\n", "");

    /* Then */
    assert_eq!(
        Ok(r#"```shell
# Running command from within the target directory
(cd 'target'
echo 1
echo 2
)
```
"#
        .to_string()),
        md
    );
}

#[test]
fn run_commands_and_show_output() {
    /* Given */
    let mut entry = plain_entry(vec!["echo 'Albert Attard'".to_string()]);
    entry.output = Some(CommandOutput::with_caption("The command will print:".to_string()));

    /* When: the echo exits successfully and prints the name */
    let md = entry.render_outcome(true, "Albert Attard\n", "");

    /* Then */
    assert_eq!(
        Ok(r#"```shell
echo 'Albert Attard'
```

The command will print:

```
Albert Attard
```
"#
        .to_string()),
        md
    );
}

#[test]
fn run_command_with_long_output() {
    let mut command = plain_entry(vec![
        "for i in {1..10}; do echo \"[${i}] The quick brown fox jumps over the lazy dog!\"; done"
            .to_string(),
    ]);
    command.working_dir = Some("./target".to_string());
    command.output = Some(CommandOutput::new());

    let mut stdout = String::new();
    for i in 1..11 {
        stdout.push_str(&format!("[{}] The quick brown fox jumps over the lazy dog!\n", i))
    }

    let result = command.render_outcome(true, &stdout, "");
    assert!(result.is_ok());

    let output = result.unwrap();

    let mut expected = String::new();
    expected.push_str("```shell\n# Running command from within the ./target directory\n(cd './target'\nfor i in {1..10}; do echo \"[${i}] The quick brown fox jumps over the lazy dog!\"; done\n)\n```\n\n_stdout_\n\n```\n");
    for i in 1..11 {
        expected.push_str(&format!(
            "[{}] The quick brown fox jumps over the lazy dog!\n",
            i
        ))
    }
    expected.push_str("```\n");
    assert_eq!(expected, output);
}

#[test]
fn failing_command_renders_an_error_block_with_both_captures() {
    let entry = plain_entry(vec!["exit 1".to_string()]);
    let md = entry.render_outcome(false, "partial\n", "boom\n");
    assert_eq!(
        Err(r#"```shell
exit 1
```

Error

```
partial
```

_stderr_

```
boom
```
"#
        .to_string()),
        md
    );
}

#[test]
fn failing_command_with_empty_captures_renders_no_fenced_output() {
    let entry = plain_entry(vec!["exit 1".to_string()]);
    let md = entry.render_outcome(false, "", "");
    assert_eq!(Err("```shell\nexit 1\n```\n".to_string()), md);
}

#[test]
fn should_fail_command_succeeds_only_when_the_process_fails() {
    let mut entry = plain_entry(vec!["false".to_string()]);
    entry.should_fail = true;
    assert!(entry.render_outcome(false, "", "").is_ok());
    assert!(entry.render_outcome(true, "", "").is_err());
}

#[test]
fn plain_command_succeeds_only_when_the_process_succeeds() {
    let entry = plain_entry(vec!["true".to_string()]);
    assert!(entry.render_outcome(true, "", "").is_ok());
    assert!(entry.render_outcome(false, "", "").is_err());
}

#[test]
fn hidden_output_is_not_appended() {
    let mut entry = plain_entry(vec!["echo secret".to_string()]);
    entry.output = Some(CommandOutput {
        show: false,
        caption: "The output is hidden".to_string(),
        content_type: "xml".to_string(),
    });
    let md = entry.render_outcome(true, "secret\n", "");
    assert_eq!(Ok("```shell\necho secret\n```\n".to_string()), md);
}

#[test]
fn skip_tagged_command_renders_its_block_without_any_outcome() {
    let mut entry = plain_entry(vec!["echo 1".to_string()]);
    entry.tags = Some(vec!["test".to_string(), "skip".to_string()]);
    assert!(entry.has_skip_tag());
    assert_eq!("```shell\necho 1\n```\n", entry.render_skipped());
}

#[test]
fn untagged_command_is_not_skipped() {
    let mut entry = plain_entry(vec!["echo 1".to_string()]);
    assert!(!entry.has_skip_tag());
    entry.tags = Some(vec!["test".to_string()]);
    assert!(!entry.has_skip_tag());
}

#[test]
fn shell_script_text_stops_at_the_first_failure() {
    let entry = plain_entry(vec!["echo 1".to_string(), "echo 2".to_string()]);
    let expected = "#!/bin/sh\n\n# Generated by the Sociable Weaver application\n# This file is automatically deleted once the execution completes\n\nset -e\n\necho 1\necho 2";
    assert_eq!(expected, entry.format_shell_script());
}

#[test]
fn on_failure_script_text_keeps_going_after_failures() {
    let mut entry = plain_entry(vec!["exit 1".to_string()]);
    entry.on_failure_commands = Some(vec!["touch marker".to_string()]);
    let script = entry.evaluate_on_failure_commands();
    let expected = "#!/bin/sh\n\n# Generated by the Sociable Weaver application\n# This file is automatically deleted once the execution completes\n# All commands in the script are executed even when a previous command fails as this is intended for clean up\n\ntouch marker";
    assert_eq!(Some(expected.to_string()), script);
}

#[test]
fn no_on_failure_commands_mean_no_clean_up_script() {
    let entry = plain_entry(vec!["exit 1".to_string()]);
    assert_eq!(None, entry.evaluate_on_failure_commands());
}

#[test]
fn failure_hook_runs_only_after_a_failure_with_commands_declared() {
    let mut entry = plain_entry(vec!["exit 1".to_string()]);
    assert!(!entry.needs_failure_hook(true, false));
    entry.on_failure_commands = Some(vec!["touch marker".to_string()]);
    assert!(entry.needs_failure_hook(true, false));
    assert!(entry.needs_failure_hook(false, false));
    assert!(!entry.needs_failure_hook(true, true));
}

#[test]
fn default_output_appends_a_stdout_caption_and_block() {
    let mut entry = plain_entry(vec!["echo 1".to_string(), "echo 2".to_string()]);
    entry.output = Some(CommandOutput::new());
    let md = entry.render_outcome(true, "1\n2\n", "");
    assert_eq!(
        Ok("```shell\necho 1\necho 2\n```\n\n_stdout_\n\n```\n1\n2\n```\n".to_string()),
        md
    );
}

#[test]
fn command_shows_its_commands_one_per_line() {
    let entry = plain_entry(vec!["echo 1".to_string(), "echo 2".to_string()]);
    assert_eq!("echo 1\necho 2\n", entry.display_string());
}

#[test]
fn default_output_values() {
    assert_eq!(true, CommandOutput::default_show_value());
    assert_eq!("_stdout_", CommandOutput::default_caption_value());
    assert_eq!("", CommandOutput::default_content_type_value());
    let output = CommandOutput::new();
    assert_eq!(true, output.show);
    assert_eq!("_stdout_", output.caption);
    assert_eq!("", output.content_type);
}

#[test]
fn stderr_is_appended_after_stdout_on_success() {
    let mut entry = plain_entry(vec!["echo out".to_string()]);
    entry.output = Some(CommandOutput::new());
    let md = entry.render_outcome(true, "out\n", "warn\n");
    assert_eq!(
        Ok("```shell\necho out\n```\n\n_stdout_\n\n```\nout\n```\n\n_stderr_\n\n```\nwarn\n```\n"
            .to_string()),
        md
    );
}
