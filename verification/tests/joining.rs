use python_unparser::visitors::printer::{
    comma_join, dot_join, format_dotted_name, push_indent, space_join,
};

fn strings(parts: &[&str]) -> Vec<String> {
    parts.iter().map(|s| s.to_string()).collect()
}

#[test]
fn comma_join_of_nothing_is_empty() {
    assert_eq!(comma_join(&strings(&[])), "");
}

#[test]
fn comma_join_of_one_item_is_the_item() {
    assert_eq!(comma_join(&strings(&["item"])), "item");
}

#[test]
fn comma_join_of_several_items() {
    assert_eq!(comma_join(&strings(&["a", "b"])), "a, b");
    assert_eq!(comma_join(&strings(&["a", "b", "c", "d"])), "a, b, c, d");
}

#[test]
fn comma_join_keeps_empty_items() {
    assert_eq!(comma_join(&strings(&["", ""])), ", ");
    assert_eq!(comma_join(&strings(&["a", "", "b"])), "a, , b");
}

#[test]
fn space_join_cases() {
    assert_eq!(space_join(&strings(&[])), "");
    assert_eq!(space_join(&strings(&["a"])), "a");
    assert_eq!(space_join(&strings(&["a", "b", "c"])), "a b c");
}

#[test]
fn dot_join_cases() {
    assert_eq!(dot_join(&strings(&[])), "");
    assert_eq!(dot_join(&strings(&["a"])), "a");
    assert_eq!(dot_join(&strings(&["a", "b", "c"])), "a.b.c");
}

#[test]
fn dotted_name() {
    assert_eq!(format_dotted_name(&strings(&[])), "");
    assert_eq!(format_dotted_name(&strings(&["os"])), "os");
    assert_eq!(format_dotted_name(&strings(&["os", "path"])), "os.path");
}

#[test]
fn push_indent_appends_spaces() {
    let mut s = "x".to_string();
    push_indent(0, &mut s);
    assert_eq!(s, "x");
    push_indent(4, &mut s);
    assert_eq!(s, "x    ");
    push_indent(3, &mut s);
    assert_eq!(s, "x       ");
}
