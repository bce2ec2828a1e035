use python_unparser::ast::{
    Arglist, Argument, AugAssignOp, Classdef, CompoundStatement, Decorator, Expression, Funcdef,
    StarParams, Statement, Try, TypedArgsList,
};
use python_unparser::visitors::printer::{
    format_block, format_compound_statement, format_decorators, format_funcdef, format_module,
    format_statement, format_typed_param, format_typed_params, FormatError,
};

fn n(s: &str) -> String {
    s.to_string()
}

fn name(s: &str) -> Expression {
    Expression::Name(s.to_string())
}

fn ok(s: &str) -> Result<String, FormatError> {
    Ok(s.to_string())
}

fn unsupported() -> Result<String, FormatError> {
    Err(FormatError::UnsupportedConstruct)
}

fn call(f: &str) -> Statement {
    Statement::Expressions(vec![Expression::Call(
        Box::new(name(f)),
        Arglist { positional_args: vec![], keyword_args: vec![] },
    )])
}

fn compound(c: CompoundStatement) -> Statement {
    Statement::Compound(Box::new(c))
}

fn empty_args() -> Arglist {
    Arglist { positional_args: vec![], keyword_args: vec![] }
}

#[test]
fn return_two_values() {
    let s = Statement::Return(vec![Expression::Int(1), Expression::Int(2)]);
    assert_eq!(format_statement(0, &s), ok("return 1, 2\n"));
}

#[test]
fn keyword_statements() {
    assert_eq!(format_statement(0, &Statement::Pass), ok("pass\n"));
    assert_eq!(format_statement(0, &Statement::Break), ok("break\n"));
    assert_eq!(format_statement(0, &Statement::Continue), ok("continue\n"));
    assert_eq!(format_statement(0, &Statement::Raise), ok("raise\n"));
}

#[test]
fn name_list_statements() {
    assert_eq!(format_statement(0, &Statement::Del(vec![n("a"), n("b")])), ok("del a, b\n"));
    assert_eq!(format_statement(0, &Statement::Global(vec![n("a")])), ok("global a\n"));
    assert_eq!(
        format_statement(0, &Statement::Nonlocal(vec![n("a"), n("b"), n("c")])),
        ok("nonlocal a, b, c\n")
    );
}

#[test]
fn raise_statements() {
    assert_eq!(format_statement(0, &Statement::RaiseExc(name("E"))), ok("raise E\n"));
    assert_eq!(
        format_statement(0, &Statement::RaiseExcFrom(name("E"), name("cause"))),
        ok("raise E from cause\n")
    );
}

#[test]
fn assert_statements() {
    assert_eq!(format_statement(0, &Statement::Assert(name("c"), None)), ok("assert c\n"));
    assert_eq!(
        format_statement(0, &Statement::Assert(name("c"), Some(Expression::String(n("msg"))))),
        ok("assert c, \"msg\"\n")
    );
}

#[test]
fn expression_statement() {
    assert_eq!(
        format_statement(0, &Statement::Expressions(vec![name("a"), name("b")])),
        ok("a, b\n")
    );
    assert_eq!(format_statement(0, &call("f")), ok("f()\n"));
}

#[test]
fn assignments() {
    let s = Statement::Assignment(vec![name("a")], vec![vec![Expression::Int(1)]]);
    assert_eq!(format_statement(0, &s), ok("a = 1\n"));
    let chained = Statement::Assignment(
        vec![name("a"), name("b")],
        vec![vec![name("c"), name("d")], vec![Expression::Int(1), Expression::Int(2)]],
    );
    assert_eq!(format_statement(0, &chained), ok("a, b = c, d = 1, 2\n"));
    let bare = Statement::Assignment(vec![name("a")], vec![]);
    assert_eq!(format_statement(0, &bare), ok("a\n"));
}

#[test]
fn typed_assignments() {
    let s = Statement::TypedAssignment(vec![name("a")], name("int"), vec![Expression::Int(1)]);
    assert_eq!(format_statement(0, &s), ok("a: int = 1\n"));
    let declared = Statement::TypedAssignment(vec![name("a")], name("int"), vec![]);
    assert_eq!(format_statement(0, &declared), ok("a: int\n"));
}

#[test]
fn augmented_assignments() {
    let cases = vec![
        (AugAssignOp::Add, "a += 1\n"),
        (AugAssignOp::Sub, "a -= 1\n"),
        (AugAssignOp::Mult, "a *= 1\n"),
        (AugAssignOp::MatMult, "a @= 1\n"),
        (AugAssignOp::Div, "a /= 1\n"),
        (AugAssignOp::Mod, "a %= 1\n"),
        (AugAssignOp::BitAnd, "a &= 1\n"),
        (AugAssignOp::BitOr, "a |= 1\n"),
        (AugAssignOp::BitXor, "a ^= 1\n"),
        (AugAssignOp::Lshift, "a <<= 1\n"),
        (AugAssignOp::Rshift, "a >>= 1\n"),
        (AugAssignOp::Power, "a **= 1\n"),
        (AugAssignOp::Floordiv, "a //= 1\n"),
    ];
    for (op, text) in cases {
        let s = Statement::AugmentedAssignment(vec![name("a")], op, vec![Expression::Int(1)]);
        assert_eq!(format_statement(0, &s), ok(text));
    }
}

#[test]
fn simple_statement_is_indented() {
    assert_eq!(format_statement(4, &Statement::Pass), ok("    pass\n"));
    assert_eq!(format_statement(8, &Statement::Return(vec![name("a")])), ok("        return a\n"));
}

#[test]
fn statement_with_unsupported_expression() {
    assert_eq!(format_statement(0, &Statement::Return(vec![Expression::Float(0)])), unsupported());
    assert_eq!(
        format_statement(0, &Statement::Assignment(vec![name("a")], vec![vec![Expression::Bytes(vec![])]])),
        unsupported()
    );
}

#[test]
fn if_elif_else() {
    let c = CompoundStatement::If(
        vec![(name("C1"), vec![call("B1")]), (name("C2"), vec![call("B2")])],
        Some(vec![call("B3")]),
    );
    assert_eq!(
        format_compound_statement(0, &c),
        ok("if C1:\n    B1()\nelif C2:\n    B2()\nelse:\n    B3()\n")
    );
    assert_eq!(
        format_statement(0, &compound(c)),
        ok("if C1:\n    B1()\nelif C2:\n    B2()\nelse:\n    B3()\n")
    );
}

#[test]
fn if_without_else() {
    let c = CompoundStatement::If(vec![(name("c"), vec![Statement::Pass])], None);
    assert_eq!(format_statement(0, &compound(c)), ok("if c:\n    pass\n"));
}

#[test]
fn nested_blocks_are_indented_by_four_more() {
    let inner = CompoundStatement::If(
        vec![(name("b"), vec![Statement::Pass]), (name("c"), vec![Statement::Break])],
        Some(vec![Statement::Continue]),
    );
    let outer = CompoundStatement::While(name("a"), vec![compound(inner), Statement::Pass], None);
    assert_eq!(
        format_statement(0, &compound(outer)),
        ok("while a:\n    if b:\n        pass\n    elif c:\n        break\n    else:\n        continue\n    pass\n")
    );
}

#[test]
fn compound_statement_at_a_depth() {
    let c = CompoundStatement::If(
        vec![(name("a"), vec![Statement::Pass]), (name("b"), vec![Statement::Pass])],
        Some(vec![Statement::Pass]),
    );
    assert_eq!(
        format_compound_statement(4, &c),
        ok("if a:\n        pass\n    elif b:\n        pass\n    else:\n        pass\n")
    );
    assert_eq!(
        format_statement(4, &compound(c)),
        ok("    if a:\n        pass\n    elif b:\n        pass\n    else:\n        pass\n")
    );
}

#[test]
fn for_loops() {
    let c = CompoundStatement::For {
        is_async: false,
        item: vec![name("k"), name("v")],
        iterator: vec![name("items")],
        for_block: vec![Statement::Pass],
        else_block: None,
    };
    assert_eq!(format_statement(0, &compound(c)), ok("for k, v in items:\n    pass\n"));
    let a = CompoundStatement::For {
        is_async: true,
        item: vec![name("x")],
        iterator: vec![name("a"), name("b")],
        for_block: vec![Statement::Pass],
        else_block: Some(vec![Statement::Break]),
    };
    assert_eq!(
        format_statement(0, &compound(a)),
        ok("async for x in a, b:\n    pass\nelse:\n    break\n")
    );
}

#[test]
fn while_loops() {
    let c = CompoundStatement::While(name("c"), vec![Statement::Pass], Some(vec![Statement::Pass]));
    assert_eq!(format_statement(0, &compound(c)), ok("while c:\n    pass\nelse:\n    pass\n"));
}

#[test]
fn with_statements() {
    let c = CompoundStatement::With(
        vec![(name("a"), Some(name("b"))), (name("c"), None)],
        vec![Statement::Pass],
    );
    assert_eq!(format_statement(0, &compound(c)), ok("with a as b, c:\n    pass\n"));
}

#[test]
fn try_with_empty_sections_has_none_of_their_lines() {
    let t = Try {
        try_block: vec![Statement::Pass],
        except_clauses: vec![(name("E"), None, vec![Statement::Pass])],
        last_except: vec![],
        else_block: vec![],
        finally_block: vec![],
    };
    assert_eq!(
        format_statement(0, &compound(CompoundStatement::Try(t))),
        ok("try:\n    pass\nexcept E:\n    pass\n")
    );
}

#[test]
fn try_with_every_section() {
    let t = Try {
        try_block: vec![call("a")],
        except_clauses: vec![
            (name("E"), Some(n("e")), vec![call("b")]),
            (name("F"), None, vec![call("c")]),
        ],
        last_except: vec![call("d")],
        else_block: vec![call("e")],
        finally_block: vec![call("f")],
    };
    assert_eq!(
        format_statement(4, &compound(CompoundStatement::Try(t))),
        ok("    try:\n        a()\n    except E as e:\n        b()\n    except F:\n        c()\n    except:\n        d()\n    else:\n        e()\n    finally:\n        f()\n")
    );
}

#[test]
fn try_with_finally_only() {
    let t = Try {
        try_block: vec![Statement::Pass],
        except_clauses: vec![],
        last_except: vec![],
        else_block: vec![],
        finally_block: vec![Statement::Pass],
    };
    assert_eq!(
        format_statement(0, &compound(CompoundStatement::Try(t))),
        ok("try:\n    pass\nfinally:\n    pass\n")
    );
}

#[test]
fn class_definition_is_unsupported() {
    let c = CompoundStatement::Classdef(Classdef {
        decorators: vec![],
        name: n("C"),
        parameters: empty_args(),
        code: vec![Statement::Pass],
    });
    assert_eq!(format_compound_statement(0, &c), unsupported());
    assert_eq!(format_statement(0, &compound(c)), unsupported());
}

#[test]
fn unsupported_statement_deep_in_a_block() {
    let class = compound(CompoundStatement::Classdef(Classdef {
        decorators: vec![],
        name: n("C"),
        parameters: empty_args(),
        code: vec![],
    }));
    let outer = CompoundStatement::While(
        name("a"),
        vec![Statement::Pass],
        Some(vec![compound(CompoundStatement::If(vec![(name("b"), vec![class])], None))]),
    );
    assert_eq!(format_module(&[Statement::Pass, compound(outer)]), unsupported());
}

#[test]
fn typed_parameters() {
    assert_eq!(format_typed_param(&(n("a"), None, None)), ok("a"));
    assert_eq!(format_typed_param(&(n("a"), Some(name("int")), None)), ok("a:int"));
    assert_eq!(format_typed_param(&(n("a"), None, Some(Expression::Int(1)))), ok("a=1"));
    assert_eq!(
        format_typed_param(&(n("a"), Some(name("int")), Some(Expression::Int(1)))),
        ok("a:int=1")
    );
}

#[test]
fn typed_parameter_lists() {
    let all = TypedArgsList {
        positional_args: vec![(n("a"), None, None), (n("b"), Some(name("int")), Some(Expression::Int(1)))],
        star_args: StarParams::Named((n("args"), Some(name("str")))),
        keyword_args: vec![(n("c"), None, None)],
        star_kwargs: Some((n("kw"), None)),
    };
    assert_eq!(format_typed_params(&all), ok("a, b:int=1, *args:str, c, **kw"));
    let bare = TypedArgsList {
        positional_args: vec![(n("a"), None, None)],
        star_args: StarParams::Anonymous,
        keyword_args: vec![(n("k"), None, Some(name("d")))],
        star_kwargs: Some((n("kw"), Some(name("dict")))),
    };
    assert_eq!(format_typed_params(&bare), ok("a, *, k=d, **kw:dict"));
    assert_eq!(format_typed_params(&TypedArgsList::default()), ok(""));
    let positional = TypedArgsList {
        positional_args: vec![(n("a"), None, None), (n("b"), None, None)],
        star_args: StarParams::No,
        keyword_args: vec![],
        star_kwargs: None,
    };
    assert_eq!(format_typed_params(&positional), ok("a, b"));
    let star = TypedArgsList {
        positional_args: vec![],
        star_args: StarParams::Named((n("args"), None)),
        keyword_args: vec![],
        star_kwargs: None,
    };
    assert_eq!(format_typed_params(&star), ok("*args"));
}

#[test]
fn decorators() {
    let ds = vec![
        Decorator { name: vec![n("a"), n("b")], args: None },
        Decorator {
            name: vec![n("c")],
            args: Some(Arglist {
                positional_args: vec![Argument::Normal(Expression::Int(1))],
                keyword_args: vec![Argument::Normal((n("k"), name("v")))],
            }),
        },
        Decorator { name: vec![n("d")], args: Some(empty_args()) },
    ];
    assert_eq!(format_decorators(0, &ds), ok("@a.b\n@c(1, k=v)\n@d()\n"));
    assert_eq!(format_decorators(4, &ds), ok("    @a.b\n    @c(1, k=v)\n    @d()\n"));
    assert_eq!(format_decorators(4, &vec![]), ok(""));
}

#[test]
fn function_definition() {
    let f = Funcdef {
        is_async: false,
        decorators: vec![],
        name: n("f"),
        parameters: TypedArgsList {
            positional_args: vec![(n("a"), None, None)],
            star_args: StarParams::No,
            keyword_args: vec![],
            star_kwargs: None,
        },
        return_type: None,
        code: vec![Statement::Return(vec![name("a")])],
    };
    assert_eq!(format_funcdef(0, &f), ok("\ndef f(a):\n    return a\n\n"));
    assert_eq!(
        format_statement(0, &compound(CompoundStatement::Funcdef(f))),
        ok("\ndef f(a):\n    return a\n\n")
    );
}

#[test]
fn decorated_async_function_definition_in_a_block() {
    let f = Funcdef {
        is_async: true,
        decorators: vec![Decorator { name: vec![n("d")], args: None }],
        name: n("f"),
        parameters: TypedArgsList::default(),
        return_type: Some(name("int")),
        code: vec![Statement::Pass],
    };
    assert_eq!(
        format_funcdef(4, &f),
        ok("\n    @d\n    async def f() -> int:\n        pass\n\n")
    );
    assert_eq!(
        format_statement(4, &compound(CompoundStatement::Funcdef(f))),
        ok("    \n    @d\n    async def f() -> int:\n        pass\n\n")
    );
}

#[test]
fn blocks() {
    let stmts = vec![Statement::Pass, Statement::Break];
    assert_eq!(format_block(0, &stmts), ok("pass\nbreak\n"));
    assert_eq!(format_block(4, &stmts), ok("    pass\n    break\n"));
    assert_eq!(format_block(4, &vec![]), ok(""));
}

#[test]
fn module_is_its_statements_in_order() {
    let stmts = vec![
        Statement::Assignment(vec![name("x")], vec![vec![Expression::Int(1)]]),
        compound(CompoundStatement::While(name("x"), vec![Statement::Break], None)),
        Statement::Return(vec![]),
    ];
    assert_eq!(format_module(&stmts), ok("x = 1\nwhile x:\n    break\nreturn \n"));
    assert_eq!(format_module(&[]), ok(""));
}

#[test]
fn module_equals_block_at_depth_zero() {
    let stmts = vec![
        Statement::Pass,
        compound(CompoundStatement::If(vec![(name("a"), vec![Statement::Pass])], None)),
    ];
    assert_eq!(format_module(&stmts), format_block(0, &stmts));
}

#[test]
fn fault_has_a_message() {
    assert_eq!(
        FormatError::UnsupportedConstruct.to_string(),
        "The printer has no rendering for a construct."
    );
}
