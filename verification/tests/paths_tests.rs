use sociable_weaver::args::Args;
use sociable_weaver::args::DocumentFile;
use sociable_weaver::paths::join_path;
use sociable_weaver::paths::path_is_absolute;

#[test]
fn join_appends_a_relative_path() {
    assert_eq!("/base/test", join_path("/base", "test"));
}

#[test]
fn join_keeps_an_absolute_path() {
    assert_eq!("/test", join_path("/base", "/test"));
}

#[test]
fn absolute_paths_start_with_the_separator() {
    assert!(path_is_absolute("/test"));
    assert!(!path_is_absolute("test"));
    assert!(!path_is_absolute(""));
}

#[test]
fn parent_dir_is_the_prefix_before_the_last_separator() {
    let file = DocumentFile::new("/a/b/c.json".to_string());
    assert_eq!(Some("/a/b".to_string()), file.parent_dir());
}

#[test]
fn a_bare_file_name_has_no_parent_dir() {
    let file = DocumentFile::new("c.json".to_string());
    assert_eq!(None, file.parent_dir());
}

#[test]
fn args_default_to_the_runbook_file() {
    let args = Args::create(None);
    assert_eq!("sw-runbook.json", args.file_name);
    assert_eq!("sw-runbook.json", args.file_path());
    let files = args.files();
    assert_eq!(1, files.len());
    assert_eq!("sw-runbook.json", files[0].path);
}

#[test]
fn args_keep_a_given_file_name() {
    let args = Args::create(Some("book.json".to_string()));
    assert_eq!("book.json", args.file_path());
}
