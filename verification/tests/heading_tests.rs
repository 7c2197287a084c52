use sociable_weaver::heading::HeadingEntry;
use sociable_weaver::heading::HeadingLevel::{H1, H2, H3, H4, H5};

#[test]
fn format_h1() {
    /* Given */
    let h1 = HeadingEntry { level: H1, title: "Heading Level 1".to_string() };

    /* When */
    let md = h1.run_markdown();

    /* Then */
    assert_eq!(Ok("# Heading Level 1\n".to_string()), md);
}

#[test]
fn format_h2() {
    /* Given */
    let h2 = HeadingEntry { level: H2, title: "Heading Level 2".to_string() };

    /* When */
    let md = h2.run_markdown();

    /* Then */
    assert_eq!(Ok("## Heading Level 2\n".to_string()), md);
}

#[test]
fn format_h3() {
    /* Given */
    let h3 = HeadingEntry { level: H3, title: "Heading Level 3".to_string() };

    /* When */
    let md = h3.run_markdown();

    /* Then */
    assert_eq!(Ok("### Heading Level 3\n".to_string()), md);
}

#[test]
fn format_h4() {
    /* Given */
    let h4 = HeadingEntry { level: H4, title: "Heading Level 4".to_string() };

    /* When */
    let md = h4.run_markdown();

    /* Then */
    assert_eq!(Ok("#### Heading Level 4\n".to_string()), md);
}

#[test]
fn format_h5() {
    /* Given */
    let h5 = HeadingEntry { level: H5, title: "Heading Level 5".to_string() };

    /* When */
    let md = h5.run_markdown();

    /* Then */
    assert_eq!(Ok("##### Heading Level 5\n".to_string()), md);
}
