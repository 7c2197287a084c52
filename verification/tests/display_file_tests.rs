use sociable_weaver::display_file::DisplayFileEntry;

fn java_file() -> &'static str {
    r#"package demo;

import org.springframework.boot.SpringApplication;
import org.springframework.boot.autoconfigure.SpringBootApplication;

@SpringBootApplication
public class Main {

    public static void main(final String[] args) {
        SpringApplication.run(Main.class, args);
    }
}
"#
}

fn entry(path: &str) -> DisplayFileEntry {
    DisplayFileEntry {
        path: path.to_string(),
        content_type: None,
        from_line: None,
        number_of_lines: None,
        tags: None,
        indent: None,
    }
}

#[test]
fn run_java_file() {
    /* Given */
    let entry = entry("./target/fixtures/1/Main.java");

    /* When */
    let md = entry.render_content(java_file());

    /* Then */
    assert_eq!(
        r#"```java
package demo;

import org.springframework.boot.SpringApplication;
import org.springframework.boot.autoconfigure.SpringBootApplication;

@SpringBootApplication
public class Main {

    public static void main(final String[] args) {
        SpringApplication.run(Main.class, args);
    }
}
```
"#
        .to_string(),
        md
    );
}

#[test]
fn run_java_file_without_new_line_at_the_end() {
    /* Given */
    let entry = entry("./target/fixtures/2/Main.java");
    let content = java_file().trim_end_matches('\n').to_string();

    /* When */
    let md = entry.render_content(&content);

    /* Then: the closing fence still lands on its own line */
    assert_eq!(
        r#"```java
package demo;

import org.springframework.boot.SpringApplication;
import org.springframework.boot.autoconfigure.SpringBootApplication;

@SpringBootApplication
public class Main {

    public static void main(final String[] args) {
        SpringApplication.run(Main.class, args);
    }
}
```
"#
        .to_string(),
        md
    );
}

#[test]
fn run_java_lines_from_file() {
    /* Given */
    let mut entry = entry("./target/fixtures/3/Main.java");
    entry.from_line = Some(9);
    entry.number_of_lines = Some(3);

    /* When */
    let md = entry.render_content(java_file());

    /* Then */
    assert_eq!(
        r#"```java
    public static void main(final String[] args) {
        SpringApplication.run(Main.class, args);
    }
```
"#
        .to_string(),
        md
    );
}

#[test]
fn run_java_lines_from_file_with_different_content_type() {
    /* Given */
    let mut entry = entry("./target/fixtures/4/Main.java");
    entry.content_type = Some("txt".to_string());
    entry.from_line = Some(9);
    entry.number_of_lines = Some(3);

    /* When */
    let md = entry.render_content(java_file());

    /* Then */
    assert_eq!(
        r#"```txt
    public static void main(final String[] args) {
        SpringApplication.run(Main.class, args);
    }
```
"#
        .to_string(),
        md
    );
}

#[test]
fn run_java_lines_from_file_with_indentation() {
    /* Given */
    let mut entry = entry("./target/fixtures/5/Main.java");
    entry.from_line = Some(9);
    entry.number_of_lines = Some(3);
    entry.indent = Some(3);

    /* When */
    let md = entry.render_content(java_file());

    /* Then */
    assert_eq!(
        r#"   ```java
       public static void main(final String[] args) {
           SpringApplication.run(Main.class, args);
       }
   ```
"#
        .to_string(),
        md
    );
}

#[test]
fn convert_tilda_into_user_home_directory() {
    let entry = entry("~/.m2/toolchains.xml");

    if let Some(home_dir) = dirs::home_dir().unwrap().to_str() {
        let expected = format!("{home_dir}/.m2/toolchains.xml");
        assert_eq!(expected, entry.path())
    }
}

#[test]
fn path_without_alias_comes_back_as_written() {
    let entry = entry("./some/path/File.java");
    assert_eq!("./some/path/File.java", entry.path());
}

#[test]
fn file_type_comes_from_the_extension_when_unset() {
    assert_eq!("java", entry("./some/path/Main.java").file_type());
    assert_eq!("xml", entry("~/.m2/toolchains.xml").file_type());
    assert_eq!("", entry("./no/extension/Makefile").file_type());
    assert_eq!("", entry("./dotted.dir/README").file_type());
    assert_eq!("", entry(".hidden").file_type());
}

#[test]
fn explicit_content_type_wins_over_the_extension() {
    let mut e = entry("./some/path/Main.java");
    e.content_type = Some("something".to_string());
    assert_eq!("something", e.file_type());
}

#[test]
fn number_of_lines_alone_takes_from_the_start() {
    let mut e = entry("./target/fixtures/6/Main.java");
    e.number_of_lines = Some(1);
    assert_eq!("```java\npackage demo;\n```\n", e.render_content(java_file()));
}

#[test]
fn from_line_beyond_the_file_gives_an_empty_block() {
    let mut e = entry("./target/fixtures/7/Main.java");
    e.from_line = Some(99);
    assert_eq!("```java\n\n```\n", e.render_content(java_file()));
}
