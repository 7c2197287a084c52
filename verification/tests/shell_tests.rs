use sociable_weaver::shell::ScriptCounter;
use sociable_weaver::shell::ShellScript;

#[test]
fn script_path_weaves_in_stamp_and_index() {
    let script = ShellScript::new("/work/dir", "#!/bin/sh\necho 1", 1234567890123, 7);
    assert_eq!("/work/dir/.sw-commands-1234567890123-7.sh", script.path);
    assert_eq!("#!/bin/sh\necho 1", script.contents);
}

#[test]
fn distinct_indices_give_distinct_paths() {
    let first = ShellScript::new("/work", "a", 99, 1);
    let second = ShellScript::new("/work", "a", 99, 2);
    assert_ne!(first.path, second.path);
}

#[test]
fn the_clock_reads_after_the_epoch() {
    assert!(ShellScript::millis_since_epoch() > 0);
}

#[test]
fn counter_hands_out_increasing_indices() {
    let mut counter = ScriptCounter::new();
    assert_eq!(1, counter.fresh_index());
    assert_eq!(2, counter.fresh_index());
    assert_eq!(3, counter.fresh_index());
}
