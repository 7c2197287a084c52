use sociable_weaver::context::replace_all;
use sociable_weaver::context::str_eq;
use sociable_weaver::context::Context;
use sociable_weaver::text_variable::TextVariable;

#[test]
fn return_the_default_value_when_one_is_not_provided() {
    let default_value = "TEST_VALUE".to_string();
    let variable = TextVariable {
        name: "TEST_VARIABLE".to_string(),
        default_value: Some(default_value.clone()),
    };
    let value = variable.value();
    assert_eq!(default_value, value);
}

#[test]
fn variable_shows_its_name_and_default() {
    let variable = TextVariable {
        name: "VAR_NAME".to_string(),
        default_value: Some("DEFAULT-VALUE".to_string()),
    };
    assert_eq!("VAR_NAME", variable.name());
    assert_eq!("VAR_NAME (DEFAULT-VALUE)", variable.display_string());
    let bare = TextVariable { name: "VAR_NAME".to_string(), default_value: None };
    assert_eq!("VAR_NAME", bare.display_string());
}

#[test]
fn context_resolves_declared_variables() {
    let mut context = Context::new("/base".to_string());
    context.add_variable(&TextVariable {
        name: "NAME".to_string(),
        default_value: Some("World".to_string()),
    });
    assert_eq!("Hello World!", context.resolve("Hello ${NAME}!"));
    assert_eq!("no markers here", context.resolve("no markers here"));
}

#[test]
fn context_substitutes_every_occurrence_in_declaration_order() {
    let mut context = Context::new("/base".to_string());
    context.add_variable(&TextVariable {
        name: "A".to_string(),
        default_value: Some("x".to_string()),
    });
    context.add_variable(&TextVariable {
        name: "B".to_string(),
        default_value: Some("y".to_string()),
    });
    assert_eq!("x and x, then y", context.resolve("${A} and ${A}, then ${B}"));
}

#[test]
fn context_looks_bindings_up_by_name() {
    let mut context = Context::new("/base".to_string());
    context.add_variable(&TextVariable {
        name: "NAME".to_string(),
        default_value: Some("World".to_string()),
    });
    assert_eq!(Some("World".to_string()), context.value_of("NAME"));
    assert_eq!(None, context.value_of("OTHER"));
}

#[test]
fn with_current_dir_replaces_only_the_directory() {
    let mut context = Context::new("/old".to_string());
    context.add_variable(&TextVariable {
        name: "NAME".to_string(),
        default_value: Some("World".to_string()),
    });
    let moved = context.with_current_dir("/new".to_string());
    assert_eq!("/new", moved.current_dir);
    assert_eq!(Some("World".to_string()), moved.value_of("NAME"));
}

#[test]
fn replace_all_scans_left_to_right_without_rescanning() {
    assert_eq!("ba", replace_all("aaa", "aa", "b"));
    assert_eq!("unchanged", replace_all("unchanged", "zz", "b"));
    assert_eq!("unchanged", replace_all("unchanged", "", "b"));
    assert_eq!("xx", replace_all("abab", "ab", "x"));
}

#[test]
fn str_eq_compares_characters() {
    assert!(str_eq("Köln", "Köln"));
    assert!(!str_eq("Köln", "Koln"));
    assert!(!str_eq("a", "ab"));
    assert!(str_eq("", ""));
}
