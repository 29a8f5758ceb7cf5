use std::collections::HashMap;

use platemaker::template::escape;
use platemaker::template::splice;
use platemaker::template::Placeholder;
use platemaker::template::PlaceholderError;

fn strings(items: &[&str]) -> Vec<String> {
    items.iter().map(|item| item.to_string()).collect()
}

#[test]
fn shell_style() {
    let placeholder = Placeholder::from_strs("${", "}", None)
        .expect("Placeholder::from_strs not to error for valid arguments.");

    assert_eq!(&placeholder.parse_used_placeholders("${a}, ${b}, ${c}"), &["a", "b", "c"]);
    assert_eq!(&placeholder.parse_used_placeholders("${ a }, ${ b }, ${ c }"), &["a", "b", "c"]);
    assert_eq!(&placeholder.parse_used_placeholders("${a}, ${b}, ${a}"), &["a", "b", "a"]);
}

#[test]
fn shell_style_with_numeric_only() {
    let placeholder = Placeholder::from_strs("${", "}", Some("[0-9]+"))
        .expect("Placeholder::from_strs not to error for valid arguments.");

    assert_eq!(
        &placeholder.parse_used_placeholders("${a}, ${b}, ${1}, ${1234567890} ${a}"),
        &["1", "1234567890"]
    );
}

#[test]
fn fill_shell_style_placeholder() {
    let replace_dataset = HashMap::from([("title", "foo"), ("description", "bar")]);

    let placeholder = Placeholder::from_strs("${", "}", None)
        .expect("Placeholder::from_strs not to error for valid arguments.");

    assert_eq!(
        placeholder.partially_fill_placeholders(
            "Title: ${title}, Description: ${description}",
            |name: &str| { replace_dataset.get(name).map(|value| value.to_string()) }
        ),
        Ok("Title: foo, Description: bar".to_string()),
    );
}

#[test]
fn partial_fill_names_every_placeholder_without_a_value() {
    let placeholder = Placeholder::from_strs("${", "}", None).unwrap();

    let filled = placeholder.partially_fill_placeholders(
        "${known} ${missing} ${known} ${other} ${missing}",
        |name: &str| if name == "known" { Some("k".to_string()) } else { None },
    );

    assert_eq!(filled, Err(strings(&["missing", "other", "missing"])));
}

#[test]
fn fill_replaces_each_placeholder_and_keeps_the_rest() {
    let placeholder = Placeholder::from_strs("${", "}", None).unwrap();

    let filled =
        placeholder.fill_placeholders("a ${x} b ${ y } c", |name: &str| name.to_uppercase());

    assert_eq!(filled, "a X b Y c");
    assert_eq!(placeholder.fill_placeholders("nothing here", |_: &str| String::new()), "nothing here");
    assert_eq!(placeholder.fill_placeholders("${only}", |name: &str| format!("[{name}]")), "[only]");
}

#[test]
fn surroundings_are_one_more_than_the_placeholders() {
    let placeholder = Placeholder::from_strs("${", "}", None).unwrap();

    assert_eq!(placeholder.parse_surroundings("${a}${b}"), strings(&["", "", ""]));
    assert_eq!(placeholder.parse_surroundings("x${a}y"), strings(&["x", "y"]));
    assert_eq!(placeholder.parse_surroundings("plain"), strings(&["plain"]));
}

#[test]
fn delimiters_are_escaped() {
    assert_eq!(escape("${"), "\\$\\{");
    assert_eq!(escape("}"), "\\}");
    assert_eq!(escape("[(^)]"), "\\[\\(\\^\\)\\]");
    assert_eq!(escape(":"), ":");
    assert_eq!(escape(""), "");
}

#[test]
fn splice_interleaves_parts_and_values() {
    assert_eq!(splice(&strings(&["a", "b", "c"]), &strings(&["1", "2"])), "a1b2c");
    assert_eq!(splice(&strings(&["only"]), &Vec::new()), "only");
}

#[test]
fn a_content_pattern_that_does_not_compile_is_refused() {
    match Placeholder::from_strs("${", "}", Some("[0-9")) {
        Err(PlaceholderError::InvalidRegex { context, regex }) => {
            assert_eq!(
                context,
                "The 'content_regex' could not be built. Specify a valid 'content_regex'."
            );
            assert!(!regex.is_empty());
        }
        other => panic!("expected an invalid regex, got {other:?}"),
    }
}

#[test]
fn a_pattern_without_the_name_group_is_refused() {
    assert!(matches!(
        Placeholder::from_regex("\\{\\{(?<other>[a-z]+)\\}\\}"),
        Err(PlaceholderError::CaptureGroupNotFound)
    ));
    match Placeholder::from_regex("(?<name>[a-z") {
        Err(PlaceholderError::InvalidRegex { context, .. }) => assert_eq!(
            context,
            "Placeholder regex could not be built. You might have to use `Placeholder::from_regex` instead."
        ),
        other => panic!("expected an invalid regex, got {other:?}"),
    }
    let braces = Placeholder::from_regex("\\{\\{(?<name>[a-z]+)\\}\\}").unwrap();
    assert_eq!(braces.parse_used_placeholders("{{a}} {b} {{c}}"), strings(&["a", "c"]));
}
