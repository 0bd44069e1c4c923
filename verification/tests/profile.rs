use weee::config::ProfileConfig;
use weee::context::ProfileContext;
use weee::diagnostics::{draw_error, line_of, render_error, render_toml_error};
use weee::error::{CLIError, ErrorKind};
use weee::profile::{profile_file_name, profile_or_default, read_document};

fn chars(text: &str) -> Vec<char> {
    text.chars().collect()
}

#[test]
fn profile_is_kept_under_its_name() {
    assert_eq!(profile_file_name("project"), "project.version.toml");
    assert_eq!(profile_file_name("some"), "some.version.toml");
    assert_eq!(profile_file_name(""), ".version.toml");
    assert_eq!(profile_or_default(&None), "project");
    assert_eq!(profile_or_default(&Some("some".to_string())), "some");
}

#[test]
fn document_is_read_from_toml() {
    let text = "# kept\n[parts.major]\nvalue = 1 # one\n";
    let document = read_document(".weee/project.version.toml", text).unwrap();
    assert_eq!(document.to_string(), text);
    assert_eq!(document["parts"]["major"]["value"].as_integer(), Some(1));
    let context = ProfileContext::load(
        "project",
        document,
        ProfileConfig {
            parts: linked_hash_map::LinkedHashMap::new(),
            files: linked_hash_map::LinkedHashMap::new(),
            hooks: None,
        },
    );
    assert_eq!(context.profile_name, "project");
    assert_eq!(context.profile_doc.to_string(), text);
}

#[test]
fn text_that_is_no_toml_is_reported() {
    let error = read_document(".weee/project.version.toml", "[parts\nvalue = ").unwrap_err();
    assert_eq!(error.kind, ErrorKind::InvalidSyntax);
    assert_eq!(error.title, "TOMLInvalidSyntax");
    assert_eq!(error.description, "Invalid syntax in a profile configuration file");
    assert_eq!(error.payload.len(), 2);
    assert_eq!(error.payload[0], ("path", ".weee/project.version.toml".to_string()));
    assert_eq!(error.payload[1].0, "error");
    assert!(!error.payload[1].1.is_empty());
}

#[test]
fn lines_are_parted_by_line_feeds() {
    let content = chars("first\nsecond\n\nfourth");
    assert_eq!(line_of(&content, 0), Some(chars("first")));
    assert_eq!(line_of(&content, 1), Some(chars("second")));
    assert_eq!(line_of(&content, 2), Some(chars("")));
    assert_eq!(line_of(&content, 3), Some(chars("fourth")));
    assert_eq!(line_of(&content, 4), None);
    assert_eq!(line_of(&chars(""), 0), Some(chars("")));
    assert_eq!(line_of(&chars(""), 1), None);
    assert_eq!(line_of(&chars("a\n"), 1), Some(chars("")));
    assert_eq!(line_of(&chars("a\n"), 2), None);
}

#[test]
fn failure_is_drawn_under_its_line() {
    let view = draw_error("a.toml", &chars("value = "), "expected a value", 9, 8);
    assert_eq!(
        view,
        "Expected a value\n -> a.toml:10:9\n    |\n 10  | value = \n    |         ^"
    );
    let view = render_error("a.toml", "x = 1\ny = \n", "expected a value", Some((1, 4))).unwrap();
    assert_eq!(view, "Expected a value\n -> a.toml:2:5\n    |\n 2  | y = \n    |     ^");
    assert_eq!(render_error("a.toml", "x = 1\n", "unknown", None), Some(String::new()));
    assert_eq!(render_error("a.toml", "x = 1\n", "", Some((0, 0))), None);
    assert_eq!(render_error("a.toml", "x = 1", "beyond", Some((1, 0))), None);
    assert_eq!(render_error("a.toml", "x = 1", "beyond", Some((usize::MAX, 0))), None);
}

#[test]
fn reader_failure_is_drawn_with_its_message() {
    let content = "x = 1\ny = \n".to_string();
    let error = toml::from_str::<toml::Value>(&content).unwrap_err();
    let (line, column) = error.line_col().unwrap();
    let message = format!("{}", error);
    let mut letters = message.chars();
    let first: String = letters.next().unwrap().to_uppercase().take(1).collect();
    let margin = " ".repeat(line.to_string().len());
    let expected = format!(
        "{}{}\n -> a.toml:{}:{}\n{}   |\n {}  | {}\n{}   | {}^",
        first,
        letters.as_str(),
        line + 1,
        column + 1,
        margin,
        line + 1,
        content.split('\n').nth(line).unwrap(),
        margin,
        " ".repeat(column)
    );
    assert_eq!(render_toml_error("a.toml", content, error), Some(expected));
}

#[test]
fn header_rule_fills_half_of_what_the_title_leaves() {
    assert_eq!(CLIError::header_rule(80, 22), "-".repeat(26));
    assert_eq!(CLIError::header_rule(28, 22), "");
    assert_eq!(CLIError::header_rule(31, 22), "-");
}
