use python_unparser::ast::{Import, Statement};
use python_unparser::visitors::printer::{format_import, format_statement};

fn n(s: &str) -> String {
    s.to_string()
}

#[test]
fn relative_from_import() {
    let imp = Import::ImportFrom {
        leading_dots: 2,
        path: vec![n("pkg")],
        names: vec![(n("x"), None)],
    };
    assert_eq!(format_import(&imp), "from ..pkg import x");
}

#[test]
fn from_import_separates_names_with_commas() {
    let imp = Import::ImportFrom {
        leading_dots: 0,
        path: vec![n("os"), n("path")],
        names: vec![(n("join"), None), (n("split"), Some(n("cut"))), (n("sep"), None)],
    };
    assert_eq!(format_import(&imp), "from os.path import join, split as cut, sep");
}

#[test]
fn from_import_with_alias() {
    let imp = Import::ImportFrom {
        leading_dots: 0,
        path: vec![n("x")],
        names: vec![(n("y"), Some(n("z")))],
    };
    assert_eq!(format_import(&imp), "from x import y as z");
}

#[test]
fn from_import_of_everything() {
    let imp = Import::ImportFrom { leading_dots: 0, path: vec![n("x")], names: vec![] };
    assert_eq!(format_import(&imp), "from x import *");
}

#[test]
fn from_import_with_dots_only() {
    let imp = Import::ImportFrom { leading_dots: 5, path: vec![], names: vec![(n("y"), None)] };
    assert_eq!(format_import(&imp), "from ..... import y");
}

#[test]
fn plain_import() {
    let imp = Import::Import {
        names: vec![(vec![n("x"), n("y")], Some(n("z"))), (vec![n("foo"), n("bar")], None)],
    };
    assert_eq!(format_import(&imp), "import x.y as z, foo.bar");
}

#[test]
fn plain_import_of_one_module() {
    let imp = Import::Import { names: vec![(vec![n("sys")], None)] };
    assert_eq!(format_import(&imp), "import sys");
}

#[test]
fn import_statement_is_one_line() {
    let imp = Import::Import { names: vec![(vec![n("sys")], None)] };
    assert_eq!(format_statement(2, &Statement::Import(imp)), Ok(n("  import sys\n")));
}
