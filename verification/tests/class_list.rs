use webplatform::parse_class_list;

#[test]
fn single_spaces_split_names() {
    assert_eq!(parse_class_list("nav active"), vec!["nav", "active"]);
}

#[test]
fn surrounding_whitespace_is_trimmed() {
    assert_eq!(parse_class_list("  nav active\t\n"), vec!["nav", "active"]);
}

#[test]
fn duplicates_are_kept_once() {
    assert_eq!(
        parse_class_list("nav nav-bar nav"),
        vec!["nav", "nav-bar"]
    );
}

#[test]
fn consecutive_separators_yield_an_empty_piece() {
    let names = parse_class_list("a  b");
    assert_eq!(names.len(), 3);
    assert!(names.contains(&String::from("a")));
    assert!(names.contains(&String::from("")));
    assert!(names.contains(&String::from("b")));
}

#[test]
fn empty_attribute_yields_the_empty_name() {
    assert_eq!(parse_class_list(""), vec![""]);
    assert_eq!(parse_class_list("   "), vec![""]);
}

#[test]
fn tabs_and_newlines_separate_names() {
    assert_eq!(parse_class_list("a\tb\nc"), vec!["a", "b", "c"]);
}

#[test]
fn multibyte_names() {
    assert_eq!(parse_class_list("größe 日本語"), vec!["größe", "日本語"]);
}
