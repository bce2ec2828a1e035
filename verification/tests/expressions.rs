use python_unparser::ast::{
    Arglist, Argument, Bop, ComprehensionChunk, DictItem, Expression, SetItem, StarParams,
    Subscript, UntypedArgsList, Uop,
};
use python_unparser::text::{format_int, quote};
use python_unparser::visitors::printer::{
    format_args, format_comp, format_dictitem, format_expr, format_kw_arg, format_operand,
    format_pos_arg, format_setitem, format_subscript, format_untyped_param,
    format_untyped_params, FormatError,
};

fn name(s: &str) -> Expression {
    Expression::Name(s.to_string())
}

fn boxed(s: &str) -> Box<Expression> {
    Box::new(name(s))
}

fn ok(s: &str) -> Result<String, FormatError> {
    Ok(s.to_string())
}

fn unsupported() -> Result<String, FormatError> {
    Err(FormatError::UnsupportedConstruct)
}

#[test]
fn keyword_literals() {
    assert_eq!(format_expr(&Expression::Ellipsis), ok("..."));
    assert_eq!(format_expr(&Expression::NoneLiteral), ok("None"));
    assert_eq!(format_expr(&Expression::True), ok("True"));
    assert_eq!(format_expr(&Expression::False), ok("False"));
}

#[test]
fn name_is_written_as_it_is() {
    assert_eq!(format_expr(&name("spam")), ok("spam"));
}

#[test]
fn integers_in_decimal() {
    assert_eq!(format_expr(&Expression::Int(0)), ok("0"));
    assert_eq!(format_expr(&Expression::Int(7)), ok("7"));
    assert_eq!(format_expr(&Expression::Int(10)), ok("10"));
    assert_eq!(format_expr(&Expression::Int(1234567890)), ok("1234567890"));
    assert_eq!(format_expr(&Expression::Int(-5)), ok("-5"));
    assert_eq!(format_expr(&Expression::Int(i64::MAX)), ok("9223372036854775807"));
    assert_eq!(format_expr(&Expression::Int(i64::MIN)), ok("-9223372036854775808"));
}

#[test]
fn format_int_agrees_with_std() {
    for i in [0i64, 1, 9, 10, 11, 99, 100, 101, -1, -9, -10, -100, 4096, -65535, i64::MAX, i64::MIN]
    {
        assert_eq!(format_int(i), i.to_string());
    }
}

#[test]
fn plain_string_is_quoted() {
    assert_eq!(format_expr(&Expression::String("hello world".to_string())), ok("\"hello world\""));
    assert_eq!(format_expr(&Expression::String(String::new())), ok("\"\""));
    assert_eq!(format_expr(&Expression::String("it's".to_string())), ok("\"it's\""));
}

#[test]
fn string_escapes() {
    assert_eq!(
        format_expr(&Expression::String("a\"b\\c\nd\re\tf".to_string())),
        ok("\"a\\\"b\\\\c\\nd\\re\\tf\"")
    );
    assert_eq!(quote("\\"), Some("\"\\\\\"".to_string()));
    assert_eq!(quote("~ !"), Some("\"~ !\"".to_string()));
}

#[test]
fn string_with_other_characters_is_unsupported() {
    assert_eq!(format_expr(&Expression::String("caf\u{e9}".to_string())), unsupported());
    assert_eq!(format_expr(&Expression::String("a\0b".to_string())), unsupported());
    assert_eq!(format_expr(&Expression::String("\u{7f}".to_string())), unsupported());
    assert_eq!(format_expr(&Expression::String("\u{1b}[0m".to_string())), unsupported());
    assert_eq!(quote("\u{1F600}"), None);
}

#[test]
fn unsupported_expressions() {
    assert_eq!(format_expr(&Expression::Float(1.5f64.to_bits())), unsupported());
    assert_eq!(
        format_expr(&Expression::Complex { real: 0f64.to_bits(), imaginary: 1f64.to_bits() }),
        unsupported()
    );
    assert_eq!(format_expr(&Expression::Bytes(vec![1, 2])), unsupported());
    assert_eq!(format_expr(&Expression::Yield(vec![name("a")])), unsupported());
    assert_eq!(format_expr(&Expression::YieldFrom(boxed("a"))), unsupported());
}

#[test]
fn unsupported_part_makes_the_whole_unsupported() {
    let e = Expression::Bop(Bop::Add, boxed("a"), Box::new(Expression::Float(0)));
    assert_eq!(format_expr(&e), unsupported());
    let l = Expression::ListLiteral(vec![
        SetItem::Unique(name("a")),
        SetItem::Star(Expression::Yield(vec![])),
    ]);
    assert_eq!(format_expr(&l), unsupported());
    let c = Expression::Call(
        boxed("f"),
        Arglist {
            positional_args: vec![],
            keyword_args: vec![Argument::Normal(("k".to_string(), Expression::Bytes(vec![])))],
        },
    );
    assert_eq!(format_expr(&c), unsupported());
}

#[test]
fn container_literals() {
    let items = || vec![SetItem::Unique(name("a")), SetItem::Star(name("b")), SetItem::Unique(Expression::Int(3))];
    assert_eq!(format_expr(&Expression::SetLiteral(items())), ok("{a, *b, 3}"));
    assert_eq!(format_expr(&Expression::ListLiteral(items())), ok("[a, *b, 3]"));
    assert_eq!(format_expr(&Expression::TupleLiteral(items())), ok("(a, *b, 3)"));
    assert_eq!(
        format_expr(&Expression::DictLiteral(vec![
            DictItem::Unique(name("k"), name("v")),
            DictItem::Star(name("rest")),
        ])),
        ok("{k:v, **rest}")
    );
}

#[test]
fn empty_and_single_containers() {
    assert_eq!(format_expr(&Expression::ListLiteral(vec![])), ok("[]"));
    assert_eq!(format_expr(&Expression::TupleLiteral(vec![])), ok("()"));
    assert_eq!(format_expr(&Expression::DictLiteral(vec![])), ok("{}"));
    assert_eq!(format_expr(&Expression::ListLiteral(vec![SetItem::Unique(name("a"))])), ok("[a]"));
}

#[test]
fn items() {
    assert_eq!(format_setitem(&SetItem::Unique(name("a"))), ok("a"));
    assert_eq!(format_setitem(&SetItem::Star(name("a"))), ok("*a"));
    assert_eq!(format_dictitem(&DictItem::Unique(name("a"), Expression::Int(1))), ok("a:1"));
    assert_eq!(format_dictitem(&DictItem::Star(name("a"))), ok("**a"));
}

#[test]
fn comprehension_clauses() {
    assert_eq!(format_comp(&ComprehensionChunk::If { cond: name("c") }), ok("if c"));
    assert_eq!(
        format_comp(&ComprehensionChunk::For {
            is_async: false,
            item: vec![name("k"), name("v")],
            iterator: name("pairs"),
        }),
        ok("for k, v in pairs")
    );
    assert_eq!(
        format_comp(&ComprehensionChunk::For {
            is_async: true,
            item: vec![name("x")],
            iterator: name("xs"),
        }),
        ok("async for x in xs")
    );
}

#[test]
fn comprehensions_keep_the_order_of_their_clauses() {
    let chunks = || {
        vec![
            ComprehensionChunk::For { is_async: false, item: vec![name("x")], iterator: name("xs") },
            ComprehensionChunk::If { cond: name("x") },
            ComprehensionChunk::For { is_async: false, item: vec![name("y")], iterator: name("x") },
        ]
    };
    let item = || Box::new(SetItem::Unique(name("y")));
    assert_eq!(
        format_expr(&Expression::ListComp(item(), chunks())),
        ok("[y for x in xs if x for y in x]")
    );
    assert_eq!(
        format_expr(&Expression::SetComp(item(), chunks())),
        ok("{y for x in xs if x for y in x}")
    );
    assert_eq!(
        format_expr(&Expression::Generator(item(), chunks())),
        ok("(y for x in xs if x for y in x)")
    );
    assert_eq!(
        format_expr(&Expression::DictComp(
            Box::new(DictItem::Unique(name("x"), name("y"))),
            chunks()
        )),
        ok("{x:y for x in xs if x for y in x}")
    );
}

#[test]
fn call_arguments() {
    let args = Arglist {
        positional_args: vec![Argument::Normal(Expression::Int(1)), Argument::Star(name("xs"))],
        keyword_args: vec![
            Argument::Normal(("k".to_string(), name("v"))),
            Argument::Star(name("m")),
        ],
    };
    assert_eq!(format_args(&args), ok("1, *xs, k=v, **m"));
    assert_eq!(format_expr(&Expression::Call(boxed("f"), args)), ok("f(1, *xs, k=v, **m)"));
}

#[test]
fn call_arguments_of_one_group_only() {
    let positional = Arglist {
        positional_args: vec![Argument::Normal(name("a")), Argument::Normal(name("b"))],
        keyword_args: vec![],
    };
    assert_eq!(format_args(&positional), ok("a, b"));
    let keyword = Arglist {
        positional_args: vec![],
        keyword_args: vec![Argument::Normal(("k".to_string(), name("v")))],
    };
    assert_eq!(format_args(&keyword), ok("k=v"));
    let none = Arglist { positional_args: vec![], keyword_args: vec![] };
    assert_eq!(format_args(&none), ok(""));
    assert_eq!(format_expr(&Expression::Call(boxed("f"), none)), ok("f()"));
}

#[test]
fn single_arguments() {
    assert_eq!(format_pos_arg(&Argument::Normal(name("a"))), ok("a"));
    assert_eq!(format_pos_arg(&Argument::Star(name("a"))), ok("*a"));
    assert_eq!(format_kw_arg(&Argument::Normal(("k".to_string(), Expression::Int(2)))), ok("k=2"));
    assert_eq!(format_kw_arg(&Argument::Star(name("a"))), ok("**a"));
}

#[test]
fn subscripts() {
    assert_eq!(format_subscript(&Subscript::Simple(name("i"))), ok("i"));
    assert_eq!(format_subscript(&Subscript::Double(None, None)), ok(":"));
    assert_eq!(
        format_subscript(&Subscript::Double(Some(Expression::Int(1)), Some(Expression::Int(2)))),
        ok("1:2")
    );
    assert_eq!(format_subscript(&Subscript::Triple(None, None, Some(Expression::Int(3)))), ok("::3"));
    assert_eq!(
        format_subscript(&Subscript::Triple(Some(name("a")), Some(name("b")), Some(name("c")))),
        ok("a:b:c")
    );
    let e = Expression::Subscript(
        boxed("m"),
        vec![Subscript::Simple(name("i")), Subscript::Double(Some(Expression::Int(1)), None)],
    );
    assert_eq!(format_expr(&e), ok("m[i, 1:]"));
}

#[test]
fn trailers_chain() {
    let e = Expression::Attribute(
        Box::new(Expression::Subscript(
            Box::new(Expression::Call(
                Box::new(Expression::Attribute(boxed("a"), "b".to_string())),
                Arglist { positional_args: vec![], keyword_args: vec![] },
            )),
            vec![Subscript::Simple(Expression::Int(0))],
        )),
        "c".to_string(),
    );
    assert_eq!(format_expr(&e), ok("a.b()[0].c"));
}

#[test]
fn nested_binary_operand_is_parenthesized() {
    let e = Expression::Bop(
        Bop::Add,
        boxed("a"),
        Box::new(Expression::Bop(Bop::Mult, boxed("b"), boxed("c"))),
    );
    assert_eq!(format_expr(&e), ok("a+(b*c)"));
}

#[test]
fn atoms_are_not_parenthesized_as_operands() {
    let atoms = vec![
        (Expression::Ellipsis, "..."),
        (Expression::NoneLiteral, "None"),
        (Expression::True, "True"),
        (Expression::False, "False"),
        (name("n"), "n"),
        (Expression::Int(1), "1"),
        (Expression::String("s".to_string()), "\"s\""),
        (Expression::DictLiteral(vec![]), "{}"),
        (Expression::SetLiteral(vec![SetItem::Unique(name("a"))]), "{a}"),
        (Expression::ListLiteral(vec![]), "[]"),
        (Expression::TupleLiteral(vec![]), "()"),
    ];
    for (atom, text) in atoms {
        assert_eq!(format_operand(&atom), ok(text));
        let e = Expression::Bop(Bop::Sub, Box::new(atom), boxed("x"));
        assert_eq!(format_expr(&e), Ok(format!("{}-x", text)));
    }
    let comp = Expression::ListComp(
        Box::new(SetItem::Unique(name("x"))),
        vec![ComprehensionChunk::For { is_async: false, item: vec![name("x")], iterator: name("xs") }],
    );
    assert_eq!(format_operand(&comp), ok("[x for x in xs]"));
}

#[test]
fn other_operands_are_parenthesized() {
    let call = Expression::Call(boxed("f"), Arglist { positional_args: vec![], keyword_args: vec![] });
    assert_eq!(format_operand(&call), ok("(f())"));
    assert_eq!(format_operand(&Expression::Attribute(boxed("a"), "b".to_string())), ok("(a.b)"));
    assert_eq!(
        format_operand(&Expression::Subscript(boxed("a"), vec![Subscript::Simple(name("i"))])),
        ok("(a[i])")
    );
    assert_eq!(format_operand(&Expression::Uop(Uop::Minus, boxed("a"))), ok("(-a)"));
    assert_eq!(format_operand(&Expression::Star(boxed("a"))), ok("(*a)"));
    let e = Expression::Bop(
        Bop::And,
        Box::new(Expression::Uop(Uop::Not, boxed("a"))),
        Box::new(Expression::Attribute(boxed("b"), "c".to_string())),
    );
    assert_eq!(format_expr(&e), ok("(not a) and (b.c)"));
}

#[test]
fn ternary_parenthesizes_all_three() {
    let e = Expression::Ternary(boxed("a"), boxed("b"), boxed("c"));
    assert_eq!(format_expr(&e), ok("(a) if (b) else (c)"));
    let nested = Expression::Ternary(Box::new(e), Box::new(Expression::Int(1)), boxed("d"));
    assert_eq!(format_expr(&nested), ok("((a) if (b) else (c)) if (1) else (d)"));
}

#[test]
fn unary_operators() {
    assert_eq!(format_expr(&Expression::Uop(Uop::Plus, boxed("a"))), ok("+a"));
    assert_eq!(format_expr(&Expression::Uop(Uop::Minus, boxed("a"))), ok("-a"));
    assert_eq!(format_expr(&Expression::Uop(Uop::Invert, boxed("a"))), ok("~a"));
    assert_eq!(format_expr(&Expression::Uop(Uop::Not, boxed("a"))), ok("not a"));
    let sum = Expression::Bop(Bop::Add, boxed("a"), boxed("b"));
    assert_eq!(format_expr(&Expression::Uop(Uop::Minus, Box::new(sum))), ok("-(a+b)"));
    let inner = Expression::Uop(Uop::Minus, boxed("a"));
    assert_eq!(format_expr(&Expression::Uop(Uop::Minus, Box::new(inner))), ok("-(-a)"));
}

#[test]
fn binary_operator_spellings() {
    let cases = vec![
        (Bop::Add, "a+b"),
        (Bop::Sub, "a-b"),
        (Bop::Mult, "a*b"),
        (Bop::Matmult, "a@b"),
        (Bop::Mod, "a%b"),
        (Bop::Floordiv, "a//b"),
        (Bop::Div, "a/b"),
        (Bop::Power, "a**b"),
        (Bop::Lshift, "a<<b"),
        (Bop::Rshift, "a>>b"),
        (Bop::BitAnd, "a&b"),
        (Bop::BitXor, "a^b"),
        (Bop::BitOr, "a|b"),
        (Bop::Lt, "a<b"),
        (Bop::Gt, "a>b"),
        (Bop::Eq, "a==b"),
        (Bop::Leq, "a<=b"),
        (Bop::Geq, "a>=b"),
        (Bop::Neq, "a!=b"),
        (Bop::In, "a in b"),
        (Bop::NotIn, "a not in b"),
        (Bop::Is, "a is b"),
        (Bop::IsNot, "a is not b"),
        (Bop::And, "a and b"),
        (Bop::Or, "a or b"),
    ];
    for (op, text) in cases {
        assert_eq!(format_expr(&Expression::Bop(op, boxed("a"), boxed("b"))), ok(text));
    }
}

#[test]
fn star_expression() {
    assert_eq!(format_expr(&Expression::Star(boxed("a"))), ok("*a"));
}

#[test]
fn lambda_parameters() {
    let params = UntypedArgsList {
        positional_args: vec![("a".to_string(), None), ("b".to_string(), Some(Expression::Int(1)))],
        star_args: StarParams::Named("args".to_string()),
        keyword_args: vec![("c".to_string(), None)],
        star_kwargs: Some("kw".to_string()),
    };
    assert_eq!(format_untyped_params(&params), ok("a, b=1, *args, c, **kw"));
    assert_eq!(
        format_expr(&Expression::Lambdef(params, boxed("a"))),
        ok("lambda a, b=1, *args, c, **kw: a")
    );
    assert_eq!(format_untyped_param(&("x".to_string(), None)), ok("x"));
    assert_eq!(format_untyped_param(&("x".to_string(), Some(name("y")))), ok("x=y"));
}

#[test]
fn lambda_parameter_groups_that_are_left_out() {
    let bare = UntypedArgsList {
        positional_args: vec![],
        star_args: StarParams::Anonymous,
        keyword_args: vec![("k".to_string(), None)],
        star_kwargs: None,
    };
    assert_eq!(format_untyped_params(&bare), ok("*, k"));
    assert_eq!(format_untyped_params(&UntypedArgsList::default()), ok(""));
    let only_kwargs = UntypedArgsList {
        positional_args: vec![],
        star_args: StarParams::No,
        keyword_args: vec![],
        star_kwargs: Some("kw".to_string()),
    };
    assert_eq!(format_untyped_params(&only_kwargs), ok("**kw"));
}
