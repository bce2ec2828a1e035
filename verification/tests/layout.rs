use python_unparser::ast::{CompoundStatement, Expression, Funcdef, Statement, Try, TypedArgsList};
use python_unparser::visitors::printer::{format_block, format_module};

fn name(s: &str) -> Expression {
    Expression::Name(s.to_string())
}

fn compound(c: CompoundStatement) -> Statement {
    Statement::Compound(Box::new(c))
}

fn leading_spaces(line: &str) -> usize {
    line.chars().take_while(|c| *c == ' ').count()
}

fn deep_tree() -> Vec<Statement> {
    let innermost = CompoundStatement::Try(Try {
        try_block: vec![Statement::Pass],
        except_clauses: vec![(name("E"), None, vec![Statement::Break])],
        last_except: vec![Statement::Continue],
        else_block: vec![Statement::Pass],
        finally_block: vec![Statement::Pass],
    });
    let middle = CompoundStatement::For {
        is_async: false,
        item: vec![name("x")],
        iterator: vec![name("xs")],
        for_block: vec![compound(innermost), Statement::Pass],
        else_block: Some(vec![Statement::Pass]),
    };
    let outer = CompoundStatement::If(
        vec![
            (name("a"), vec![compound(middle)]),
            (name("b"), vec![Statement::Pass]),
        ],
        Some(vec![compound(CompoundStatement::With(vec![(name("c"), None)], vec![Statement::Pass]))]),
    );
    vec![Statement::Pass, compound(outer), Statement::Return(vec![name("r")])]
}

const DEPTHS: [usize; 21] = [0, 0, 1, 2, 3, 2, 3, 2, 3, 2, 3, 2, 3, 2, 1, 2, 0, 1, 0, 1, 2];

#[test]
fn every_line_is_indented_by_four_spaces_for_each_level() {
    let text = format_module(&deep_tree()).unwrap();
    assert!(text.ends_with('\n'));
    let lines: Vec<&str> = text[..text.len() - 1].split('\n').collect();
    assert_eq!(lines.len(), DEPTHS.len() + 1);
    let expected = [
        "pass",
        "if a:",
        "for x in xs:",
        "try:",
        "pass",
        "except E:",
        "break",
        "except:",
        "continue",
        "else:",
        "pass",
        "finally:",
        "pass",
        "pass",
        "else:",
        "pass",
        "elif b:",
        "pass",
        "else:",
        "with c:",
        "pass",
        "return r",
    ];
    let depths: Vec<usize> = DEPTHS.iter().copied().chain([0]).collect();
    for (i, line) in lines.iter().enumerate() {
        assert_eq!(leading_spaces(line), 4 * depths[i]);
        assert_eq!(line.trim_start(), expected[i]);
    }
}

#[test]
fn a_deeper_block_is_the_same_block_shifted() {
    let stmts = deep_tree();
    let at_zero = format_block(0, &stmts).unwrap();
    for indent in [1usize, 4, 8, 12] {
        let shifted: String = at_zero
            .split_inclusive('\n')
            .map(|line| format!("{}{}", " ".repeat(indent), line))
            .collect();
        assert_eq!(format_block(indent, &stmts).unwrap(), shifted);
    }
}

#[test]
fn sibling_blocks_have_the_same_indentation() {
    let c = CompoundStatement::If(
        vec![
            (name("a"), vec![Statement::Pass]),
            (name("b"), vec![Statement::Pass]),
            (name("c"), vec![Statement::Pass]),
        ],
        Some(vec![Statement::Pass]),
    );
    let text = format_block(4, &vec![compound(c)]).unwrap();
    let lines: Vec<&str> = text.lines().collect();
    assert_eq!(lines.len(), 8);
    for pair in lines.chunks(2) {
        assert_eq!(leading_spaces(pair[0]), 4);
        assert_eq!(leading_spaces(pair[1]), 8);
    }
}

#[test]
fn function_definition_ends_with_a_line_that_is_not_indented() {
    let f = Funcdef {
        is_async: false,
        decorators: vec![],
        name: "f".to_string(),
        parameters: TypedArgsList::default(),
        return_type: None,
        code: vec![Statement::Pass],
    };
    let body = vec![compound(CompoundStatement::Funcdef(f)), Statement::Pass];
    let text = format_block(4, &body).unwrap();
    assert_eq!(text, "    \n    def f():\n        pass\n\n    pass\n");
}
