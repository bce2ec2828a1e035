//! What the printer writes for each node of the tree, and which trees it has
//! a rendering for.
//!
//! Every `*_text` function gives the characters written for a node, and the
//! `*_supported` function beside it says whether the node and everything
//! below it can be written at all. Of a tree that is not supported the text
//! says nothing.

use vstd::prelude::*;
use crate::ast::{
    Arglist, Argument, AugAssignOp, Bop, CompoundStatement, ComprehensionChunk, Decorator,
    DictItem, Expression, Funcdef, Import, Name, SetItem, StarParams, Statement, Subscript, Try,
    TypedArgsList, UntypedArgsList, Uop,
};
use crate::text::{concat, dots, int_text, joined, quotable, quoted, spaces, texts};

verus! {

/// The spelling of a unary operator.
pub open spec fn uop_text(op: Uop) -> Seq<char> {
    match op {
        Uop::Plus => "+"@,
        Uop::Minus => "-"@,
        Uop::Invert => "~"@,
        Uop::Not => "not "@,
    }
}

/// The spelling of a binary operator. An operator that is a word has a space
/// on either side.
pub open spec fn bop_text(op: Bop) -> Seq<char> {
    match op {
        Bop::Add => "+"@,
        Bop::Sub => "-"@,
        Bop::Mult => "*"@,
        Bop::Matmult => "@"@,
        Bop::Mod => "%"@,
        Bop::Floordiv => "//"@,
        Bop::Div => "/"@,
        Bop::Power => "**"@,
        Bop::Lshift => "<<"@,
        Bop::Rshift => ">>"@,
        Bop::BitAnd => "&"@,
        Bop::BitXor => "^"@,
        Bop::BitOr => "|"@,
        Bop::Lt => "<"@,
        Bop::Gt => ">"@,
        Bop::Eq => "=="@,
        Bop::Leq => "<="@,
        Bop::Geq => ">="@,
        Bop::Neq => "!="@,
        Bop::In => " in "@,
        Bop::NotIn => " not in "@,
        Bop::Is => " is "@,
        Bop::IsNot => " is not "@,
        Bop::And => " and "@,
        Bop::Or => " or "@,
    }
}

/// The spelling of an augmented assignment operator.
pub open spec fn aug_assign_text(op: AugAssignOp) -> Seq<char> {
    match op {
        AugAssignOp::Add => "+="@,
        AugAssignOp::Sub => "-="@,
        AugAssignOp::Mult => "*="@,
        AugAssignOp::MatMult => "@="@,
        AugAssignOp::Div => "/="@,
        AugAssignOp::Mod => "%="@,
        AugAssignOp::BitAnd => "&="@,
        AugAssignOp::BitOr => "|="@,
        AugAssignOp::BitXor => "^="@,
        AugAssignOp::Lshift => "<<="@,
        AugAssignOp::Rshift => ">>="@,
        AugAssignOp::Power => "**="@,
        AugAssignOp::Floordiv => "//="@,
    }
}

/// Whether an expression is an atom: a literal, a name, a container literal
/// or a comprehension. An atom is written without parentheses where it is the
/// operand of an operator; every other expression is put in parentheses there.
pub open spec fn is_atom(e: Expression) -> bool {
    ||| e is Ellipsis
    ||| e is NoneLiteral
    ||| e is True
    ||| e is False
    ||| e is Name
    ||| e is Int
    ||| e is Complex
    ||| e is Float
    ||| e is String
    ||| e is Bytes
    ||| e is DictLiteral
    ||| e is SetLiteral
    ||| e is ListLiteral
    ||| e is TupleLiteral
    ||| e is DictComp
    ||| e is SetComp
    ||| e is ListComp
    ||| e is Generator
}

/// The parts of a dotted name, with a full stop between each two.
pub open spec fn dotted_name_text(path: Seq<String>) -> Seq<char> {
    joined(texts(path), "."@)
}

/// The text of an expression. A literal has its spelling, a name stands as
/// it is, an integer in decimal, a string between double quotes. A container
/// has its items between its brackets with a comma and a space between each
/// two; a comprehension has its item and its clauses between the brackets
/// with a space between each two. A call, a subscript and an attribute
/// follow what they are applied to. The operand of an operator stands in
/// parentheses unless it is an atom, and each part of a conditional
/// expression stands in parentheses.
pub open spec fn expr_text(e: Expression) -> Seq<char>
    decreases e, 0nat,
{
    match e {
        Expression::Ellipsis => "..."@,
        Expression::NoneLiteral => "None"@,
        Expression::True => "True"@,
        Expression::False => "False"@,
        Expression::Name(n) => n@,
        Expression::Int(i) => int_text(i as int),
        Expression::Complex { .. } => Seq::empty(),
        Expression::Float(_) => Seq::empty(),
        Expression::String(s) => quoted(s@),
        Expression::Bytes(_) => Seq::empty(),
        Expression::DictLiteral(items) => "{"@ + joined(dictitem_texts(items@), ", "@) + "}"@,
        Expression::SetLiteral(items) => "{"@ + joined(setitem_texts(items@), ", "@) + "}"@,
        Expression::ListLiteral(items) => "["@ + joined(setitem_texts(items@), ", "@) + "]"@,
        Expression::TupleLiteral(items) => "("@ + joined(setitem_texts(items@), ", "@) + ")"@,
        Expression::DictComp(item, chunks) => "{"@ + dictitem_text(*item) + " "@ + joined(
            comp_texts(chunks@),
            " "@,
        ) + "}"@,
        Expression::SetComp(item, chunks) => "{"@ + setitem_text(*item) + " "@ + joined(
            comp_texts(chunks@),
            " "@,
        ) + "}"@,
        Expression::ListComp(item, chunks) => "["@ + setitem_text(*item) + " "@ + joined(
            comp_texts(chunks@),
            " "@,
        ) + "]"@,
        Expression::Generator(item, chunks) => "("@ + setitem_text(*item) + " "@ + joined(
            comp_texts(chunks@),
            " "@,
        ) + ")"@,
        Expression::Call(callee, args) => expr_text(*callee) + "("@ + args_text(args) + ")"@,
        Expression::Subscript(base, subs) => expr_text(*base) + "["@ + joined(
            subscript_texts(subs@),
            ", "@,
        ) + "]"@,
        Expression::Attribute(base, n) => expr_text(*base) + "."@ + n@,
        Expression::Uop(op, operand) => uop_text(op) + operand_text(*operand),
        Expression::Bop(op, left, right) => operand_text(*left) + bop_text(op) + operand_text(
            *right,
        ),
        Expression::Ternary(first, second, third) => "("@ + expr_text(*first) + ") if ("@
            + expr_text(*second) + ") else ("@ + expr_text(*third) + ")"@,
        Expression::Yield(_) => Seq::empty(),
        Expression::YieldFrom(_) => Seq::empty(),
        Expression::Star(inner) => "*"@ + expr_text(*inner),
        Expression::Lambdef(params, body) => "lambda "@ + untyped_params_text(params) + ": "@
            + expr_text(*body),
    }
}

/// The text of an expression where it is the operand of an operator: as it
/// is if the expression is an atom, between parentheses if it is not.
pub open spec fn operand_text(e: Expression) -> Seq<char>
    decreases e, 1nat,
{
    if is_atom(e) {
        expr_text(e)
    } else {
        "("@ + expr_text(e) + ")"@
    }
}

/// The text of each expression of a list.
pub open spec fn expr_texts(es: Seq<Expression>) -> Seq<Seq<char>>
    decreases es, 0nat,
{
    Seq::new(
        es.len(),
        |i: int|
            if 0 <= i < es.len() {
                expr_text(es[i])
            } else {
                Seq::empty()
            },
    )
}

/// The text of an expression that may be left out.
pub open spec fn opt_expr_text(o: Option<Expression>) -> Seq<char>
    decreases o, 0nat,
{
    match o {
        Some(e) => expr_text(e),
        None => Seq::empty(),
    }
}

/// The text of an item of a dict literal.
pub open spec fn dictitem_text(item: DictItem) -> Seq<char>
    decreases item, 0nat,
{
    match item {
        DictItem::Unique(key, value) => expr_text(key) + ":"@ + expr_text(value),
        DictItem::Star(e) => "**"@ + expr_text(e),
    }
}

/// The text of each item of a dict literal.
pub open spec fn dictitem_texts(items: Seq<DictItem>) -> Seq<Seq<char>>
    decreases items, 0nat,
{
    Seq::new(
        items.len(),
        |i: int|
            if 0 <= i < items.len() {
                dictitem_text(items[i])
            } else {
                Seq::empty()
            },
    )
}

/// The text of an item of a set, list or tuple literal.
pub open spec fn setitem_text(item: SetItem) -> Seq<char>
    decreases item, 0nat,
{
    match item {
        SetItem::Unique(e) => expr_text(e),
        SetItem::Star(e) => "*"@ + expr_text(e),
    }
}

/// The text of each item of a set, list or tuple literal.
pub open spec fn setitem_texts(items: Seq<SetItem>) -> Seq<Seq<char>>
    decreases items, 0nat,
{
    Seq::new(
        items.len(),
        |i: int|
            if 0 <= i < items.len() {
                setitem_text(items[i])
            } else {
                Seq::empty()
            },
    )
}

/// The text of a `for` or an `if` clause of a comprehension.
pub open spec fn comp_text(chunk: ComprehensionChunk) -> Seq<char>
    decreases chunk, 0nat,
{
    match chunk {
        ComprehensionChunk::If { cond } => "if "@ + expr_text(cond),
        ComprehensionChunk::For { is_async, item, iterator } => (if is_async {
            "async "@
        } else {
            ""@
        }) + "for "@ + joined(expr_texts(item@), ", "@) + " in "@ + expr_text(iterator),
    }
}

/// The text of each clause of a comprehension.
pub open spec fn comp_texts(chunks: Seq<ComprehensionChunk>) -> Seq<Seq<char>>
    decreases chunks, 0nat,
{
    Seq::new(
        chunks.len(),
        |i: int|
            if 0 <= i < chunks.len() {
                comp_text(chunks[i])
            } else {
                Seq::empty()
            },
    )
}

/// The text of an index or a slice between square brackets.
pub open spec fn subscript_text(sub: Subscript) -> Seq<char>
    decreases sub, 0nat,
{
    match sub {
        Subscript::Simple(e) => expr_text(e),
        Subscript::Double(lower, upper) => opt_expr_text(lower) + ":"@ + opt_expr_text(upper),
        Subscript::Triple(lower, upper, step) => opt_expr_text(lower) + ":"@ + opt_expr_text(
            upper,
        ) + ":"@ + opt_expr_text(step),
    }
}

/// The text of each index or slice between square brackets.
pub open spec fn subscript_texts(subs: Seq<Subscript>) -> Seq<Seq<char>>
    decreases subs, 0nat,
{
    Seq::new(
        subs.len(),
        |i: int|
            if 0 <= i < subs.len() {
                subscript_text(subs[i])
            } else {
                Seq::empty()
            },
    )
}

/// The text of a positional argument of a call.
pub open spec fn pos_arg_text(arg: Argument<Expression>) -> Seq<char>
    decreases arg, 0nat,
{
    match arg {
        Argument::Normal(e) => expr_text(e),
        Argument::Star(e) => "*"@ + expr_text(e),
    }
}

/// The text of each positional argument of a call.
pub open spec fn pos_arg_texts(args: Seq<Argument<Expression>>) -> Seq<Seq<char>>
    decreases args, 0nat,
{
    Seq::new(
        args.len(),
        |i: int|
            if 0 <= i < args.len() {
                pos_arg_text(args[i])
            } else {
                Seq::empty()
            },
    )
}

/// The text of a keyword argument of a call.
pub open spec fn kw_arg_text(arg: Argument<(Name, Expression)>) -> Seq<char>
    decreases arg, 0nat,
{
    match arg {
        Argument::Normal(pair) => pair.0@ + "="@ + expr_text(pair.1),
        Argument::Star(e) => "**"@ + expr_text(e),
    }
}

/// The text of each keyword argument of a call.
pub open spec fn kw_arg_texts(args: Seq<Argument<(Name, Expression)>>) -> Seq<Seq<char>>
    decreases args, 0nat,
{
    Seq::new(
        args.len(),
        |i: int|
            if 0 <= i < args.len() {
                kw_arg_text(args[i])
            } else {
                Seq::empty()
            },
    )
}

/// The groups of an argument list that are not empty, in order: the
/// positional arguments, then the keyword arguments.
pub open spec fn args_groups(args: Arglist) -> Seq<Seq<char>>
    decreases args, 1nat,
{
    let none = Seq::<Seq<char>>::empty();
    let positional = if args.positional_args@.len() > 0 {
        none.push(joined(pos_arg_texts(args.positional_args@), ", "@))
    } else {
        none
    };
    if args.keyword_args@.len() > 0 {
        positional.push(joined(kw_arg_texts(args.keyword_args@), ", "@))
    } else {
        positional
    }
}

/// The text of the arguments of a call, without the parentheses.
pub open spec fn args_text(args: Arglist) -> Seq<char>
    decreases args, 2nat,
{
    joined(args_groups(args), ", "@)
}

/// The text of a default value, with its equals sign.
pub open spec fn default_text(value: Option<Expression>) -> Seq<char>
    decreases value, 1nat,
{
    match value {
        Some(e) => "="@ + expr_text(e),
        None => Seq::empty(),
    }
}

/// The text of a parameter of a lambda.
pub open spec fn untyped_param_text(param: (Name, Option<Expression>)) -> Seq<char>
    decreases param, 0nat,
{
    param.0@ + default_text(param.1)
}

/// The text of each parameter of a lambda.
pub open spec fn untyped_param_texts(params: Seq<(Name, Option<Expression>)>) -> Seq<Seq<char>>
    decreases params, 0nat,
{
    Seq::new(
        params.len(),
        |i: int|
            if 0 <= i < params.len() {
                untyped_param_text(params[i])
            } else {
                Seq::empty()
            },
    )
}

/// The groups of the parameter list of a lambda that are not empty, in
/// order: positional parameters, the star, keyword-only parameters, the
/// double star.
pub open spec fn untyped_params_groups(params: UntypedArgsList) -> Seq<Seq<char>>
    decreases params, 1nat,
{
    let none = Seq::<Seq<char>>::empty();
    let positional = if params.positional_args@.len() > 0 {
        none.push(joined(untyped_param_texts(params.positional_args@), ", "@))
    } else {
        none
    };
    let star = match params.star_args {
        StarParams::No => positional,
        StarParams::Anonymous => positional.push("*"@),
        StarParams::Named(name) => positional.push("*"@ + name@),
    };
    let keyword = if params.keyword_args@.len() > 0 {
        star.push(joined(untyped_param_texts(params.keyword_args@), ", "@))
    } else {
        star
    };
    match params.star_kwargs {
        Some(name) => keyword.push("**"@ + name@),
        None => keyword,
    }
}

/// The text of the parameter list of a lambda.
pub open spec fn untyped_params_text(params: UntypedArgsList) -> Seq<char>
    decreases params, 2nat,
{
    joined(untyped_params_groups(params), ", "@)
}

/// The text of an annotation, with its colon.
pub open spec fn annotation_text(typed: Option<Expression>) -> Seq<char> {
    match typed {
        Some(e) => ":"@ + expr_text(e),
        None => Seq::empty(),
    }
}

/// The text of a parameter of a function definition.
pub open spec fn typed_param_text(param: (Name, Option<Expression>, Option<Expression>)) -> Seq<
    char,
> {
    param.0@ + annotation_text(param.1) + default_text(param.2)
}

/// The text of each parameter of a function definition.
pub open spec fn typed_param_texts(
    params: Seq<(Name, Option<Expression>, Option<Expression>)>,
) -> Seq<Seq<char>> {
    Seq::new(params.len(), |i: int| typed_param_text(params[i]))
}

/// The groups of the parameter list of a function definition that are not
/// empty, in order: positional parameters, the star, keyword-only
/// parameters, the double star.
pub open spec fn typed_params_groups(params: TypedArgsList) -> Seq<Seq<char>> {
    let none = Seq::<Seq<char>>::empty();
    let positional = if params.positional_args@.len() > 0 {
        none.push(joined(typed_param_texts(params.positional_args@), ", "@))
    } else {
        none
    };
    let star = match params.star_args {
        StarParams::No => positional,
        StarParams::Anonymous => positional.push("*"@),
        StarParams::Named(named) => positional.push("*"@ + named.0@ + annotation_text(named.1)),
    };
    let keyword = if params.keyword_args@.len() > 0 {
        star.push(joined(typed_param_texts(params.keyword_args@), ", "@))
    } else {
        star
    };
    match params.star_kwargs {
        Some(named) => keyword.push("**"@ + named.0@ + annotation_text(named.1)),
        None => keyword,
    }
}

/// The text of the parameter list of a function definition.
pub open spec fn typed_params_text(params: TypedArgsList) -> Seq<char> {
    joined(typed_params_groups(params), ", "@)
}

/// Whether the printer has a rendering for an expression. It has none for a
/// float, a complex number, a byte string, `yield` and `yield from`, nor for
/// a string that holds a character that no quoted string can hold.
pub open spec fn expr_supported(e: Expression) -> bool
    decreases e, 0nat,
{
    match e {
        Expression::Ellipsis => true,
        Expression::NoneLiteral => true,
        Expression::True => true,
        Expression::False => true,
        Expression::Name(_) => true,
        Expression::Int(_) => true,
        Expression::Complex { .. } => false,
        Expression::Float(_) => false,
        Expression::String(s) => quotable(s@),
        Expression::Bytes(_) => false,
        Expression::DictLiteral(items) => dictitems_supported(items@),
        Expression::SetLiteral(items) => setitems_supported(items@),
        Expression::ListLiteral(items) => setitems_supported(items@),
        Expression::TupleLiteral(items) => setitems_supported(items@),
        Expression::DictComp(item, chunks) => dictitem_supported(*item) && comps_supported(
            chunks@,
        ),
        Expression::SetComp(item, chunks) => setitem_supported(*item) && comps_supported(
            chunks@,
        ),
        Expression::ListComp(item, chunks) => setitem_supported(*item) && comps_supported(
            chunks@,
        ),
        Expression::Generator(item, chunks) => setitem_supported(*item) && comps_supported(
            chunks@,
        ),
        Expression::Call(callee, args) => expr_supported(*callee) && args_supported(args),
        Expression::Subscript(base, subs) => expr_supported(*base) && subscripts_supported(
            subs@,
        ),
        Expression::Attribute(base, _) => expr_supported(*base),
        Expression::Uop(_, operand) => expr_supported(*operand),
        Expression::Bop(_, left, right) => expr_supported(*left) && expr_supported(*right),
        Expression::Ternary(first, second, third) => expr_supported(*first) && expr_supported(
            *second,
        ) && expr_supported(*third),
        Expression::Yield(_) => false,
        Expression::YieldFrom(_) => false,
        Expression::Star(inner) => expr_supported(*inner),
        Expression::Lambdef(params, body) => untyped_params_supported(params) && expr_supported(
            *body,
        ),
    }
}

/// Whether the printer has a rendering for every expression of a list.
pub open spec fn exprs_supported(es: Seq<Expression>) -> bool
    decreases es, 0nat,
{
    forall|i: int| 0 <= i < es.len() ==> expr_supported(#[trigger] es[i])
}

/// Whether the printer has a rendering for an expression that may be left
/// out: it has one for what is left out.
pub open spec fn opt_expr_supported(o: Option<Expression>) -> bool
    decreases o, 0nat,
{
    match o {
        Some(e) => expr_supported(e),
        None => true,
    }
}

/// Whether the printer has a rendering for an item of a dict literal.
pub open spec fn dictitem_supported(item: DictItem) -> bool
    decreases item, 0nat,
{
    match item {
        DictItem::Unique(key, value) => expr_supported(key) && expr_supported(value),
        DictItem::Star(e) => expr_supported(e),
    }
}

/// Whether the printer has a rendering for every item of a dict literal.
pub open spec fn dictitems_supported(items: Seq<DictItem>) -> bool
    decreases items, 0nat,
{
    forall|i: int| 0 <= i < items.len() ==> dictitem_supported(#[trigger] items[i])
}

/// Whether the printer has a rendering for an item of a set, list or tuple
/// literal.
pub open spec fn setitem_supported(item: SetItem) -> bool
    decreases item, 0nat,
{
    match item {
        SetItem::Unique(e) => expr_supported(e),
        SetItem::Star(e) => expr_supported(e),
    }
}

/// Whether the printer has a rendering for every item of a set, list or
/// tuple literal.
pub open spec fn setitems_supported(items: Seq<SetItem>) -> bool
    decreases items, 0nat,
{
    forall|i: int| 0 <= i < items.len() ==> setitem_supported(#[trigger] items[i])
}

/// Whether the printer has a rendering for a clause of a comprehension.
pub open spec fn comp_supported(chunk: ComprehensionChunk) -> bool
    decreases chunk, 0nat,
{
    match chunk {
        ComprehensionChunk::If { cond } => expr_supported(cond),
        ComprehensionChunk::For { is_async, item, iterator } => exprs_supported(item@)
            && expr_supported(iterator),
    }
}

/// Whether the printer has a rendering for every clause of a comprehension.
pub open spec fn comps_supported(chunks: Seq<ComprehensionChunk>) -> bool
    decreases chunks, 0nat,
{
    forall|i: int| 0 <= i < chunks.len() ==> comp_supported(#[trigger] chunks[i])
}

/// Whether the printer has a rendering for an index or a slice.
pub open spec fn subscript_supported(sub: Subscript) -> bool
    decreases sub, 0nat,
{
    match sub {
        Subscript::Simple(e) => expr_supported(e),
        Subscript::Double(lower, upper) => opt_expr_supported(lower) && opt_expr_supported(
            upper,
        ),
        Subscript::Triple(lower, upper, step) => opt_expr_supported(lower)
            && opt_expr_supported(upper) && opt_expr_supported(step),
    }
}

/// Whether the printer has a rendering for every index or slice of a
/// subscript.
pub open spec fn subscripts_supported(subs: Seq<Subscript>) -> bool
    decreases subs, 0nat,
{
    forall|i: int| 0 <= i < subs.len() ==> subscript_supported(#[trigger] subs[i])
}

/// Whether the printer has a rendering for a positional argument.
pub open spec fn pos_arg_supported(arg: Argument<Expression>) -> bool
    decreases arg, 0nat,
{
    match arg {
        Argument::Normal(e) => expr_supported(e),
        Argument::Star(e) => expr_supported(e),
    }
}

/// Whether the printer has a rendering for every positional argument.
pub open spec fn pos_args_supported(args: Seq<Argument<Expression>>) -> bool
    decreases args, 0nat,
{
    forall|i: int| 0 <= i < args.len() ==> pos_arg_supported(#[trigger] args[i])
}

/// Whether the printer has a rendering for a keyword argument.
pub open spec fn kw_arg_supported(arg: Argument<(Name, Expression)>) -> bool
    decreases arg, 0nat,
{
    match arg {
        Argument::Normal(pair) => expr_supported(pair.1),
        Argument::Star(e) => expr_supported(e),
    }
}

/// Whether the printer has a rendering for every keyword argument.
pub open spec fn kw_args_supported(args: Seq<Argument<(Name, Expression)>>) -> bool
    decreases args, 0nat,
{
    forall|i: int| 0 <= i < args.len() ==> kw_arg_supported(#[trigger] args[i])
}

/// Whether the printer has a rendering for the arguments of a call.
pub open spec fn args_supported(args: Arglist) -> bool
    decreases args, 1nat,
{
    pos_args_supported(args.positional_args@) && kw_args_supported(args.keyword_args@)
}

/// Whether the printer has a rendering for a parameter of a lambda.
pub open spec fn untyped_param_supported(param: (Name, Option<Expression>)) -> bool
    decreases param, 0nat,
{
    opt_expr_supported(param.1)
}

/// Whether the printer has a rendering for every parameter of a list.
pub open spec fn untyped_params_list_supported(params: Seq<(Name, Option<Expression>)>) -> bool
    decreases params, 0nat,
{
    forall|i: int| 0 <= i < params.len() ==> untyped_param_supported(#[trigger] params[i])
}

/// Whether the printer has a rendering for the parameter list of a lambda.
pub open spec fn untyped_params_supported(params: UntypedArgsList) -> bool
    decreases params, 1nat,
{
    untyped_params_list_supported(params.positional_args@) && untyped_params_list_supported(
        params.keyword_args@,
    )
}

/// Whether the printer has a rendering for a parameter of a function
/// definition.
pub open spec fn typed_param_supported(
    param: (Name, Option<Expression>, Option<Expression>),
) -> bool {
    opt_expr_supported(param.1) && opt_expr_supported(param.2)
}

/// Whether the printer has a rendering for every parameter of a list.
pub open spec fn typed_params_list_supported(
    params: Seq<(Name, Option<Expression>, Option<Expression>)>,
) -> bool {
    forall|i: int| 0 <= i < params.len() ==> typed_param_supported(#[trigger] params[i])
}

/// Whether the printer has a rendering for the parameter list of a function
/// definition.
pub open spec fn typed_params_supported(params: TypedArgsList) -> bool {
    &&& typed_params_list_supported(params.positional_args@)
    &&& match params.star_args {
        StarParams::Named(named) => opt_expr_supported(named.1),
        _ => true,
    }
    &&& typed_params_list_supported(params.keyword_args@)
    &&& match params.star_kwargs {
        Some(named) => opt_expr_supported(named.1),
        None => true,
    }
}

/// The text of an alias, with ` as ` in front; nothing where there is none.
pub open spec fn alias_text(alias: Option<Name>) -> Seq<char> {
    match alias {
        Some(name) => " as "@ + name@,
        None => Seq::empty(),
    }
}

/// The text of each name that a `from` import brings in.
pub open spec fn imported_name_texts(names: Seq<(Name, Option<Name>)>) -> Seq<Seq<char>> {
    Seq::new(names.len(), |i: int| names[i].0@ + alias_text(names[i].1))
}

/// The text of each module that a plain import brings in.
pub open spec fn imported_module_texts(names: Seq<(Vec<Name>, Option<Name>)>) -> Seq<Seq<char>> {
    Seq::new(names.len(), |i: int| dotted_name_text(names[i].0@) + alias_text(names[i].1))
}

/// The text of an import. A `from` import that names nothing brings in
/// everything, which is written `*`.
pub open spec fn import_text(imp: Import) -> Seq<char> {
    match imp {
        Import::ImportFrom { leading_dots, path, names } => "from "@ + dots(leading_dots as nat)
            + dotted_name_text(path@) + " import "@ + (if names@.len() == 0 {
            "*"@
        } else {
            joined(imported_name_texts(names@), ", "@)
        }),
        Import::Import { names } => "import "@ + joined(imported_module_texts(names@), ", "@),
    }
}

/// The text of each further target of an assignment, with its equals sign.
pub open spec fn assigned_texts(rhs: Seq<Vec<Expression>>) -> Seq<Seq<char>> {
    Seq::new(rhs.len(), |i: int| " = "@ + joined(expr_texts(rhs[i]@), ", "@))
}

/// The line of a simple statement, without its indentation and its line
/// break. Of a compound statement it says nothing.
pub open spec fn simple_stmt_text(s: Statement) -> Seq<char> {
    match s {
        Statement::Pass => "pass"@,
        Statement::Del(names) => "del "@ + joined(texts(names@), ", "@),
        Statement::Break => "break"@,
        Statement::Continue => "continue"@,
        Statement::Return(es) => "return "@ + joined(expr_texts(es@), ", "@),
        Statement::RaiseExcFrom(exc, cause) => "raise "@ + expr_text(exc) + " from "@ + expr_text(
            cause,
        ),
        Statement::RaiseExc(exc) => "raise "@ + expr_text(exc),
        Statement::Raise => "raise"@,
        Statement::Global(names) => "global "@ + joined(texts(names@), ", "@),
        Statement::Nonlocal(names) => "nonlocal "@ + joined(texts(names@), ", "@),
        Statement::Assert(cond, message) => "assert "@ + expr_text(cond) + (match message {
            Some(m) => ", "@ + expr_text(m),
            None => Seq::empty(),
        }),
        Statement::Import(imp) => import_text(imp),
        Statement::Expressions(es) => joined(expr_texts(es@), ", "@),
        Statement::Assignment(lhs, rhs) => joined(expr_texts(lhs@), ", "@) + concat(
            assigned_texts(rhs@),
        ),
        Statement::TypedAssignment(lhs, typed, rhs) => joined(expr_texts(lhs@), ", "@) + ": "@
            + expr_text(typed) + (if rhs@.len() > 0 {
            " = "@ + joined(expr_texts(rhs@), ", "@)
        } else {
            Seq::empty()
        }),
        Statement::AugmentedAssignment(lhs, op, rhs) => joined(expr_texts(lhs@), ", "@) + " "@
            + aug_assign_text(op) + " "@ + joined(expr_texts(rhs@), ", "@),
        Statement::Compound(_) => Seq::empty(),
    }
}

/// The text of a statement in a block that is indented by `indent` spaces.
/// A simple statement is one line: the indentation, the statement, a line
/// break. A compound statement begins with the indentation too.
pub open spec fn stmt_text(indent: nat, s: Statement) -> Seq<char>
    decreases s, 0nat,
{
    match s {
        Statement::Compound(c) => spaces(indent) + compound_text(indent, *c),
        _ => spaces(indent) + simple_stmt_text(s) + "\n"@,
    }
}

/// The text of each statement of a block that is indented by `indent`
/// spaces.
pub open spec fn stmt_texts(indent: nat, stmts: Seq<Statement>) -> Seq<Seq<char>>
    decreases stmts, 0nat,
{
    Seq::new(
        stmts.len(),
        |i: int|
            if 0 <= i < stmts.len() {
                stmt_text(indent, stmts[i])
            } else {
                Seq::empty()
            },
    )
}

/// The text of a block that is indented by `indent` spaces: its statements,
/// one after the other.
pub open spec fn block_text(indent: nat, stmts: Seq<Statement>) -> Seq<char>
    decreases stmts, 1nat,
{
    concat(stmt_texts(indent, stmts))
}

/// The text of a whole module: a block that is not indented.
pub open spec fn module_text(stmts: Seq<Statement>) -> Seq<char> {
    block_text(0, stmts)
}

/// The line that opens a branch of an `if` statement: `if` for the first
/// branch and `elif` for each later one, the condition and a colon.
pub open spec fn branch_line_text(first: bool, cond: Expression) -> Seq<char> {
    (if first {
        "if "@
    } else {
        "elif "@
    }) + expr_text(cond) + ":"@
}

/// The text of each branch of an `if` statement that is indented by `indent`
/// spaces: its line and its block. The first branch leaves its indentation
/// to the statement; each later one begins with its own.
pub open spec fn branch_texts(indent: nat, branches: Seq<(Expression, Vec<Statement>)>) -> Seq<
    Seq<char>,
>
    decreases branches, 0nat,
{
    Seq::new(
        branches.len(),
        |i: int|
            if 0 <= i < branches.len() {
                (if i == 0 {
                    Seq::empty()
                } else {
                    spaces(indent)
                }) + branch_line_text(i == 0, branches[i].0) + "\n"@ + block_text(
                    indent + 4,
                    branches[i].1@,
                )
            } else {
                Seq::empty()
            },
    )
}

/// The text of an `else` part, where there is one: the line `else:` and the
/// block.
pub open spec fn else_text(indent: nat, else_block: Option<Vec<Statement>>) -> Seq<char>
    decreases else_block, 0nat,
{
    match else_block {
        Some(block) => spaces(indent) + "else:"@ + "\n"@ + block_text(indent + 4, block@),
        None => Seq::empty(),
    }
}

/// The text of a section of a `try` statement that is left out where its
/// block is empty: the line that opens it and the block.
pub open spec fn section_text(indent: nat, opening: Seq<char>, block: Seq<Statement>) -> Seq<char>
    decreases block, 2nat,
{
    if block.len() > 0 {
        spaces(indent) + opening + "\n"@ + block_text(indent + 4, block)
    } else {
        Seq::empty()
    }
}

/// The line that opens an `except` clause that names what it catches.
pub open spec fn except_line_text(guard: Expression, alias: Option<Name>) -> Seq<char> {
    "except "@ + expr_text(guard) + alias_text(alias) + ":"@
}

/// The text of each `except` clause that names what it catches.
pub open spec fn except_texts(
    indent: nat,
    clauses: Seq<(Expression, Option<Name>, Vec<Statement>)>,
) -> Seq<Seq<char>>
    decreases clauses, 0nat,
{
    Seq::new(
        clauses.len(),
        |i: int|
            if 0 <= i < clauses.len() {
                spaces(indent) + except_line_text(clauses[i].0, clauses[i].1) + "\n"@
                    + block_text(indent + 4, clauses[i].2@)
            } else {
                Seq::empty()
            },
    )
}

/// The text of a `try` statement, from `try` on: the `try` block, the
/// `except` clauses in order, then the bare `except`, the `else` and the
/// `finally` section, each only where its block is not empty.
pub open spec fn try_text(indent: nat, t: Try) -> Seq<char>
    decreases t, 0nat,
{
    "try:"@ + "\n"@ + block_text(indent + 4, t.try_block@) + concat(
        except_texts(indent, t.except_clauses@),
    ) + section_text(indent, "except:"@, t.last_except@) + section_text(
        indent,
        "else:"@,
        t.else_block@,
    ) + section_text(indent, "finally:"@, t.finally_block@)
}

/// The text of each thing that a `with` statement enters.
pub open spec fn context_texts(contexts: Seq<(Expression, Option<Expression>)>) -> Seq<Seq<char>> {
    Seq::new(
        contexts.len(),
        |i: int|
            expr_text(contexts[i].0) + (match contexts[i].1 {
                Some(target) => " as "@ + expr_text(target),
                None => Seq::empty(),
            }),
    )
}

/// The line that opens a `for` statement.
pub open spec fn for_line_text(
    is_async: bool,
    item: Seq<Expression>,
    iterator: Seq<Expression>,
) -> Seq<char> {
    (if is_async {
        "async "@
    } else {
        ""@
    }) + "for "@ + joined(expr_texts(item), ", "@) + " in "@ + joined(expr_texts(iterator), ", "@)
        + ":"@
}

/// The line that opens a `while` statement.
pub open spec fn while_line_text(cond: Expression) -> Seq<char> {
    "while "@ + expr_text(cond) + ":"@
}

/// The line that opens a `with` statement.
pub open spec fn with_line_text(contexts: Seq<(Expression, Option<Expression>)>) -> Seq<char> {
    "with "@ + joined(context_texts(contexts), ", "@) + ":"@
}

/// The line of a decorator: `@`, the dotted name, and the arguments in
/// parentheses where it has any.
pub open spec fn decorator_line_text(d: Decorator) -> Seq<char> {
    "@"@ + dotted_name_text(d.name@) + (match d.args {
        Some(args) => "("@ + args_text(args) + ")"@,
        None => Seq::empty(),
    })
}

/// The line of each decorator, with its indentation and its line break.
pub open spec fn decorator_texts(indent: nat, decorators: Seq<Decorator>) -> Seq<Seq<char>> {
    Seq::new(
        decorators.len(),
        |i: int| spaces(indent) + decorator_line_text(decorators[i]) + "\n"@,
    )
}

/// The lines of the decorators of a definition, each with its indentation
/// and its line break.
pub open spec fn decorators_text(indent: nat, decorators: Seq<Decorator>) -> Seq<char> {
    concat(decorator_texts(indent, decorators))
}

/// The line that opens a function definition: `def`, with `async` in front
/// where the function has it, the name, the parameters in parentheses, the
/// return annotation after ` -> ` where there is one, and a colon.
pub open spec fn def_line_text(f: Funcdef) -> Seq<char> {
    (if f.is_async {
        "async "@
    } else {
        ""@
    }) + "def "@ + f.name@ + "("@ + typed_params_text(f.parameters) + ")"@ + (match f.return_type {
        Some(ret) => " -> "@ + expr_text(ret),
        None => Seq::empty(),
    }) + ":"@
}

/// The text of a function definition in a block that is indented by `indent`
/// spaces, after the indentation of the statement: a line break, the
/// decorators, the `def` line, the body, an empty line.
pub open spec fn funcdef_text(indent: nat, f: Funcdef) -> Seq<char>
    decreases f, 0nat,
{
    "\n"@ + decorators_text(indent, f.decorators@) + spaces(indent) + def_line_text(f) + "\n"@
        + block_text(indent + 4, f.code@) + "\n"@
}

/// The text of a compound statement in a block that is indented by `indent`
/// spaces, after the indentation of its first line. Each nested block is
/// indented by four spaces more.
pub open spec fn compound_text(indent: nat, c: CompoundStatement) -> Seq<char>
    decreases c, 0nat,
{
    match c {
        CompoundStatement::If(branches, else_block) => concat(branch_texts(indent, branches@))
            + else_text(indent, else_block),
        CompoundStatement::For { is_async, item, iterator, for_block, else_block } =>
            for_line_text(is_async, item@, iterator@) + "\n"@ + block_text(indent + 4, for_block@)
                + else_text(indent, else_block),
        CompoundStatement::While(cond, block, else_block) => while_line_text(cond) + "\n"@
            + block_text(indent + 4, block@) + else_text(indent, else_block),
        CompoundStatement::With(contexts, block) => with_line_text(contexts@) + "\n"@
            + block_text(indent + 4, block@),
        CompoundStatement::Funcdef(f) => funcdef_text(indent, f),
        CompoundStatement::Classdef(_) => Seq::empty(),
        CompoundStatement::Try(t) => try_text(indent, t),
    }
}

/// Whether the printer has a rendering for a simple statement. Of a compound
/// statement it says nothing.
pub open spec fn simple_stmt_supported(s: Statement) -> bool {
    match s {
        Statement::Return(es) => exprs_supported(es@),
        Statement::RaiseExcFrom(exc, cause) => expr_supported(exc) && expr_supported(cause),
        Statement::RaiseExc(exc) => expr_supported(exc),
        Statement::Assert(cond, message) => expr_supported(cond) && opt_expr_supported(message),
        Statement::Expressions(es) => exprs_supported(es@),
        Statement::Assignment(lhs, rhs) => exprs_supported(lhs@) && forall|i: int|
            0 <= i < rhs@.len() ==> exprs_supported(#[trigger] rhs@[i]@),
        Statement::TypedAssignment(lhs, typed, rhs) => exprs_supported(lhs@) && expr_supported(
            typed,
        ) && exprs_supported(rhs@),
        Statement::AugmentedAssignment(lhs, _, rhs) => exprs_supported(lhs@) && exprs_supported(
            rhs@,
        ),
        _ => true,
    }
}

/// Whether the printer has a rendering for a statement: for all but a class
/// definition, as far as it has one for what the statement holds.
pub open spec fn stmt_supported(s: Statement) -> bool
    decreases s, 0nat,
{
    match s {
        Statement::Compound(c) => compound_supported(*c),
        _ => simple_stmt_supported(s),
    }
}

/// Whether the printer has a rendering for every statement of a block.
pub open spec fn block_supported(stmts: Seq<Statement>) -> bool
    decreases stmts, 0nat,
{
    forall|i: int| 0 <= i < stmts.len() ==> stmt_supported(#[trigger] stmts[i])
}

/// Whether the printer has a rendering for every branch of an `if`
/// statement.
pub open spec fn branches_supported(branches: Seq<(Expression, Vec<Statement>)>) -> bool
    decreases branches, 0nat,
{
    forall|i: int|
        0 <= i < branches.len() ==> expr_supported((#[trigger] branches[i]).0) && block_supported(
            branches[i].1@,
        )
}

/// Whether the printer has a rendering for an `else` part: it has one for a
/// part that is left out.
pub open spec fn else_supported(else_block: Option<Vec<Statement>>) -> bool
    decreases else_block, 0nat,
{
    match else_block {
        Some(block) => block_supported(block@),
        None => true,
    }
}

/// Whether the printer has a rendering for every `except` clause that names
/// what it catches.
pub open spec fn excepts_supported(
    clauses: Seq<(Expression, Option<Name>, Vec<Statement>)>,
) -> bool
    decreases clauses, 0nat,
{
    forall|i: int|
        0 <= i < clauses.len() ==> expr_supported((#[trigger] clauses[i]).0) && block_supported(
            clauses[i].2@,
        )
}

/// Whether the printer has a rendering for a `try` statement.
pub open spec fn try_supported(t: Try) -> bool
    decreases t, 0nat,
{
    &&& block_supported(t.try_block@)
    &&& excepts_supported(t.except_clauses@)
    &&& block_supported(t.last_except@)
    &&& block_supported(t.else_block@)
    &&& block_supported(t.finally_block@)
}

/// Whether the printer has a rendering for everything that a `with`
/// statement enters.
pub open spec fn contexts_supported(contexts: Seq<(Expression, Option<Expression>)>) -> bool {
    forall|i: int|
        0 <= i < contexts.len() ==> expr_supported((#[trigger] contexts[i]).0)
            && opt_expr_supported(contexts[i].1)
}

/// Whether the printer has a rendering for a decorator.
pub open spec fn decorator_supported(d: Decorator) -> bool {
    match d.args {
        Some(args) => args_supported(args),
        None => true,
    }
}

/// Whether the printer has a rendering for every decorator of a definition.
pub open spec fn decorators_supported(decorators: Seq<Decorator>) -> bool {
    forall|i: int| 0 <= i < decorators.len() ==> decorator_supported(#[trigger] decorators[i])
}

/// Whether the printer has a rendering for a function definition.
pub open spec fn funcdef_supported(f: Funcdef) -> bool
    decreases f, 0nat,
{
    &&& decorators_supported(f.decorators@)
    &&& typed_params_supported(f.parameters)
    &&& opt_expr_supported(f.return_type)
    &&& block_supported(f.code@)
}

/// Whether the printer has a rendering for a compound statement: for all
/// but a class definition, as far as it has one for what the statement holds.
pub open spec fn compound_supported(c: CompoundStatement) -> bool
    decreases c, 0nat,
{
    match c {
        CompoundStatement::If(branches, else_block) => branches_supported(branches@)
            && else_supported(else_block),
        CompoundStatement::For { is_async, item, iterator, for_block, else_block } => {
            &&& exprs_supported(item@)
            &&& exprs_supported(iterator@)
            &&& block_supported(for_block@)
            &&& else_supported(else_block)
        },
        CompoundStatement::While(cond, block, else_block) => expr_supported(cond)
            && block_supported(block@) && else_supported(else_block),
        CompoundStatement::With(contexts, block) => contexts_supported(contexts@)
            && block_supported(block@),
        CompoundStatement::Funcdef(f) => funcdef_supported(f),
        CompoundStatement::Classdef(_) => false,
        CompoundStatement::Try(t) => try_supported(t),
    }
}

} // verus!
