//! Writes a tree back as source text.

use vstd::prelude::*;
use vstd::string::*;
use crate::ast::{
    Arglist, Argument, AugAssignOp, Bop, CompoundStatement, ComprehensionChunk, Decorator,
    DictItem, Expression, Funcdef, Import, Name, SetItem, StarParams, Statement, Subscript, Try,
    TypedArgsList, UntypedArgsList, Uop,
};
use crate::text::{
    concat, concat_first, dots, format_int, joined, joined_first, quote, spaces, texts,
};
use crate::visitors::rendering::{
    alias_text, annotation_text, args_groups, args_supported, args_text, assigned_texts,
    aug_assign_text, block_supported, block_text, bop_text, branch_line_text, branch_texts,
    branches_supported, comp_supported, comp_text, comp_texts, compound_supported, compound_text,
    comps_supported, context_texts, contexts_supported, decorator_line_text, decorator_supported,
    decorator_texts, decorators_supported, decorators_text, def_line_text, default_text,
    dictitem_supported, dictitem_text, dictitem_texts, dictitems_supported, dotted_name_text,
    else_supported, else_text, except_line_text, except_texts, excepts_supported, expr_supported,
    expr_text, expr_texts, exprs_supported, for_line_text, funcdef_supported, funcdef_text,
    import_text, imported_module_texts, imported_name_texts, is_atom, kw_arg_supported,
    kw_arg_text, kw_arg_texts, kw_args_supported, module_text, operand_text, opt_expr_supported,
    opt_expr_text, pos_arg_supported, pos_arg_text, pos_arg_texts, pos_args_supported,
    section_text, setitem_supported, setitem_text, setitem_texts, setitems_supported,
    simple_stmt_supported, simple_stmt_text, stmt_supported, stmt_text, stmt_texts,
    subscript_supported, subscript_text, subscript_texts, subscripts_supported, try_supported,
    try_text, typed_param_supported, typed_param_text, typed_param_texts, typed_params_groups,
    typed_params_list_supported, typed_params_supported, typed_params_text,
    untyped_param_supported, untyped_param_text, untyped_param_texts, untyped_params_groups,
    untyped_params_list_supported, untyped_params_supported, untyped_params_text, uop_text,
    while_line_text, with_line_text,
};

verus! {

/// Why a tree could not be written.
#[derive(Clone, Copy, Debug, PartialEq, Eq, Structural)]
pub enum FormatError {
    /// The tree holds a construct that the printer has no rendering for.
    UnsupportedConstruct,
}

impl FormatError {
    /// The characters of the message shown for this fault.
    pub open spec fn message(self) -> Seq<char> {
        match self {
            FormatError::UnsupportedConstruct => "The printer has no rendering for a construct."@,
        }
    }

    /// The message shown for this fault.
    pub fn to_string(self) -> (s: &'static str)
        ensures
            s@ == self.message(),
    {
        match self {
            FormatError::UnsupportedConstruct => "The printer has no rendering for a construct.",
        }
    }
}

/// The parts with `sep` between each two neighbours.
fn join_with(parts: &[String], sep: &str) -> (s: String)
    ensures
        s@ == joined(texts(parts@), sep@),
{
    let mut s = String::new();
    let mut i: usize = 0;
    while i < parts.len()
        invariant
            i <= parts.len(),
            s@ == joined_first(texts(parts@), sep@, i as nat),
        decreases parts.len() - i,
    {
        if i > 0 {
            s.append(sep);
        }
        s.append(parts[i].as_str());
        i += 1;
        assert(s@ =~= joined_first(texts(parts@), sep@, i as nat));
    }
    s
}

/// The parts with a comma and a space between each two neighbours.
pub fn comma_join(parts: &Vec<String>) -> (s: String)
    ensures
        s@ == joined(texts(parts@), ", "@),
{
    join_with(parts.as_slice(), ", ")
}

/// The parts with a space between each two neighbours.
pub fn space_join(parts: &Vec<String>) -> (s: String)
    ensures
        s@ == joined(texts(parts@), " "@),
{
    join_with(parts.as_slice(), " ")
}

/// The parts with a full stop between each two neighbours.
pub fn dot_join(parts: &Vec<String>) -> (s: String)
    ensures
        s@ == joined(texts(parts@), "."@),
{
    join_with(parts.as_slice(), ".")
}

/// A dotted name: its parts with a full stop between each two neighbours.
pub fn format_dotted_name(path: &[String]) -> (s: String)
    ensures
        s@ == dotted_name_text(path@),
{
    join_with(path, ".")
}

/// Appends `indent` spaces.
pub fn push_indent(indent: usize, s: &mut String)
    ensures
        final(s)@ == old(s)@ + spaces(indent as nat),
{
    let mut i: usize = 0;
    assert(s@ =~= old(s)@ + spaces(0));
    while i < indent
        invariant
            i <= indent,
            s@ == old(s)@ + spaces(i as nat),
        decreases indent - i,
    {
        s.append(" ");
        i += 1;
        proof {
            reveal_strlit(" ");
        }
        assert(s@ =~= old(s)@ + spaces(i as nat));
    }
}

/// Three pieces of text, one after the other.
fn cat3(a: &str, b: &str, c: &str) -> (s: String)
    ensures
        s@ == a@ + b@ + c@,
{
    let mut s = String::from_str(a);
    s.append(b);
    s.append(c);
    s
}

/// Whether an expression is written without parentheses as an operand.
fn is_atom_expr(e: &Expression) -> (b: bool)
    ensures
        b == is_atom(*e),
{
    match e {
        Expression::Ellipsis
        | Expression::NoneLiteral
        | Expression::True
        | Expression::False
        | Expression::Name(_)
        | Expression::Int(_)
        | Expression::Complex { .. }
        | Expression::Float(_)
        | Expression::String(_)
        | Expression::Bytes(_)
        | Expression::DictLiteral(_)
        | Expression::SetLiteral(_)
        | Expression::ListLiteral(_)
        | Expression::TupleLiteral(_)
        | Expression::DictComp(_, _)
        | Expression::SetComp(_, _)
        | Expression::ListComp(_, _)
        | Expression::Generator(_, _) => true,
        _ => false,
    }
}

/// The spelling of a unary operator.
fn uop_str(op: &Uop) -> (s: &'static str)
    ensures
        s@ == uop_text(*op),
{
    match op {
        Uop::Plus => "+",
        Uop::Minus => "-",
        Uop::Invert => "~",
        Uop::Not => "not ",
    }
}

/// The spelling of a binary operator.
fn bop_str(op: &Bop) -> (s: &'static str)
    ensures
        s@ == bop_text(*op),
{
    match op {
        Bop::Add => "+",
        Bop::Sub => "-",
        Bop::Mult => "*",
        Bop::Matmult => "@",
        Bop::Mod => "%",
        Bop::Floordiv => "//",
        Bop::Div => "/",
        Bop::Power => "**",
        Bop::Lshift => "<<",
        Bop::Rshift => ">>",
        Bop::BitAnd => "&",
        Bop::BitXor => "^",
        Bop::BitOr => "|",
        Bop::Lt => "<",
        Bop::Gt => ">",
        Bop::Eq => "==",
        Bop::Leq => "<=",
        Bop::Geq => ">=",
        Bop::Neq => "!=",
        Bop::In => " in ",
        Bop::NotIn => " not in ",
        Bop::Is => " is ",
        Bop::IsNot => " is not ",
        Bop::And => " and ",
        Bop::Or => " or ",
    }
}

/// The text of an expression, or the fault if the printer has no rendering
/// for it.
pub fn format_expr(e: &Expression) -> (r: Result<String, FormatError>)
    ensures
        r is Ok <==> expr_supported(*e),
        r is Ok ==> r->Ok_0@ == expr_text(*e),
    decreases e, 0nat,
{
    match e {
        Expression::Ellipsis => Ok(String::from_str("...")),
        Expression::NoneLiteral => Ok(String::from_str("None")),
        Expression::True => Ok(String::from_str("True")),
        Expression::False => Ok(String::from_str("False")),
        Expression::Name(n) => Ok(n.clone()),
        Expression::Int(i) => Ok(format_int(*i)),
        Expression::Complex { .. } => Err(FormatError::UnsupportedConstruct),
        Expression::Float(_) => Err(FormatError::UnsupportedConstruct),
        Expression::String(s) => match quote(s.as_str()) {
            Some(literal) => Ok(literal),
            None => Err(FormatError::UnsupportedConstruct),
        },
        Expression::Bytes(_) => Err(FormatError::UnsupportedConstruct),
        Expression::DictLiteral(items) => {
            let parts = format_dictitems(items)?;
            Ok(cat3("{", comma_join(&parts).as_str(), "}"))
        },
        Expression::SetLiteral(items) => {
            let parts = format_setitems(items)?;
            Ok(cat3("{", comma_join(&parts).as_str(), "}"))
        },
        Expression::ListLiteral(items) => {
            let parts = format_setitems(items)?;
            Ok(cat3("[", comma_join(&parts).as_str(), "]"))
        },
        Expression::TupleLiteral(items) => {
            let parts = format_setitems(items)?;
            Ok(cat3("(", comma_join(&parts).as_str(), ")"))
        },
        Expression::DictComp(item, chunks) => {
            let mut s = String::from_str("{");
            s.append(format_dictitem(item)?.as_str());
            s.append(" ");
            s.append(space_join(&format_comps(chunks)?).as_str());
            s.append("}");
            Ok(s)
        },
        Expression::SetComp(item, chunks) => {
            let mut s = String::from_str("{");
            s.append(format_setitem(item)?.as_str());
            s.append(" ");
            s.append(space_join(&format_comps(chunks)?).as_str());
            s.append("}");
            Ok(s)
        },
        Expression::ListComp(item, chunks) => {
            let mut s = String::from_str("[");
            s.append(format_setitem(item)?.as_str());
            s.append(" ");
            s.append(space_join(&format_comps(chunks)?).as_str());
            s.append("]");
            Ok(s)
        },
        Expression::Generator(item, chunks) => {
            let mut s = String::from_str("(");
            s.append(format_setitem(item)?.as_str());
            s.append(" ");
            s.append(space_join(&format_comps(chunks)?).as_str());
            s.append(")");
            Ok(s)
        },
        Expression::Call(callee, args) => {
            let mut s = format_expr(callee)?;
            s.append("(");
            s.append(format_args(args)?.as_str());
            s.append(")");
            Ok(s)
        },
        Expression::Subscript(base, subs) => {
            let mut s = format_expr(base)?;
            s.append("[");
            s.append(comma_join(&format_subscripts(subs)?).as_str());
            s.append("]");
            Ok(s)
        },
        Expression::Attribute(base, n) => {
            let mut s = format_expr(base)?;
            s.append(".");
            s.append(n.as_str());
            Ok(s)
        },
        Expression::Uop(op, operand) => {
            let mut s = String::from_str(uop_str(op));
            s.append(format_operand(operand)?.as_str());
            Ok(s)
        },
        Expression::Bop(op, left, right) => {
            let mut s = format_operand(left)?;
            s.append(bop_str(op));
            s.append(format_operand(right)?.as_str());
            Ok(s)
        },
        Expression::Ternary(first, second, third) => {
            let mut s = String::from_str("(");
            s.append(format_expr(first)?.as_str());
            s.append(") if (");
            s.append(format_expr(second)?.as_str());
            s.append(") else (");
            s.append(format_expr(third)?.as_str());
            s.append(")");
            Ok(s)
        },
        Expression::Yield(_) => Err(FormatError::UnsupportedConstruct),
        Expression::YieldFrom(_) => Err(FormatError::UnsupportedConstruct),
        Expression::Star(inner) => {
            let mut s = String::from_str("*");
            s.append(format_expr(inner)?.as_str());
            Ok(s)
        },
        Expression::Lambdef(params, body) => {
            let mut s = String::from_str("lambda ");
            s.append(format_untyped_params(params)?.as_str());
            s.append(": ");
            s.append(format_expr(body)?.as_str());
            Ok(s)
        },
    }
}

/// The text of an expression as the operand of an operator: in parentheses
/// unless it is an atom.
pub fn format_operand(e: &Expression) -> (r: Result<String, FormatError>)
    ensures
        r is Ok <==> expr_supported(*e),
        r is Ok ==> r->Ok_0@ == operand_text(*e),
    decreases e, 1nat,
{
    let inner = format_expr(e)?;
    if is_atom_expr(e) {
        Ok(inner)
    } else {
        Ok(cat3("(", inner.as_str(), ")"))
    }
}

/// The text of each expression of a list.
fn format_exprs(es: &Vec<Expression>) -> (r: Result<Vec<String>, FormatError>)
    ensures
        r is Ok <==> exprs_supported(es@),
        r is Ok ==> texts(r->Ok_0@) == expr_texts(es@),
    decreases es, 0nat,
{
    let mut parts: Vec<String> = Vec::new();
    let mut i: usize = 0;
    while i < es.len()
        invariant
            i <= es.len(),
            parts@.len() == i,
            forall|j: int| 0 <= j < i ==> expr_supported(#[trigger] es@[j]),
            forall|j: int| 0 <= j < i ==> (#[trigger] parts@[j])@ == expr_text(es@[j]),
        decreases es.len() - i,
    {
        let part = format_expr(&es[i])?;
        parts.push(part);
        i += 1;
    }
    assert(texts(parts@) =~= expr_texts(es@));
    Ok(parts)
}

/// The text of an expression that may be left out: nothing where it is.
fn format_opt_expr(o: &Option<Expression>) -> (r: Result<String, FormatError>)
    ensures
        r is Ok <==> opt_expr_supported(*o),
        r is Ok ==> r->Ok_0@ == opt_expr_text(*o),
    decreases o, 0nat,
{
    match o {
        Some(e) => format_expr(e),
        None => Ok(String::new()),
    }
}

/// The text of an item of a dict literal: `key:value`, or `**` and a mapping.
pub fn format_dictitem(si: &DictItem) -> (r: Result<String, FormatError>)
    ensures
        r is Ok <==> dictitem_supported(*si),
        r is Ok ==> r->Ok_0@ == dictitem_text(*si),
    decreases si, 0nat,
{
    match si {
        DictItem::Unique(key, value) => {
            let mut s = format_expr(key)?;
            s.append(":");
            s.append(format_expr(value)?.as_str());
            Ok(s)
        },
        DictItem::Star(e) => {
            let mut s = String::from_str("**");
            s.append(format_expr(e)?.as_str());
            Ok(s)
        },
    }
}

/// The text of each item of a dict literal.
fn format_dictitems(items: &Vec<DictItem>) -> (r: Result<Vec<String>, FormatError>)
    ensures
        r is Ok <==> dictitems_supported(items@),
        r is Ok ==> texts(r->Ok_0@) == dictitem_texts(items@),
    decreases items, 0nat,
{
    let mut parts: Vec<String> = Vec::new();
    let mut i: usize = 0;
    while i < items.len()
        invariant
            i <= items.len(),
            parts@.len() == i,
            forall|j: int| 0 <= j < i ==> dictitem_supported(#[trigger] items@[j]),
            forall|j: int| 0 <= j < i ==> (#[trigger] parts@[j])@ == dictitem_text(items@[j]),
        decreases items.len() - i,
    {
        let part = format_dictitem(&items[i])?;
        parts.push(part);
        i += 1;
    }
    assert(texts(parts@) =~= dictitem_texts(items@));
    Ok(parts)
}

/// The text of an item of a set, list or tuple literal: an expression, or
/// `*` and an iterable.
pub fn format_setitem(si: &SetItem) -> (r: Result<String, FormatError>)
    ensures
        r is Ok <==> setitem_supported(*si),
        r is Ok ==> r->Ok_0@ == setitem_text(*si),
    decreases si, 0nat,
{
    match si {
        SetItem::Unique(e) => format_expr(e),
        SetItem::Star(e) => {
            let mut s = String::from_str("*");
            s.append(format_expr(e)?.as_str());
            Ok(s)
        },
    }
}

/// The text of each item of a set, list or tuple literal.
fn format_setitems(items: &Vec<SetItem>) -> (r: Result<Vec<String>, FormatError>)
    ensures
        r is Ok <==> setitems_supported(items@),
        r is Ok ==> texts(r->Ok_0@) == setitem_texts(items@),
    decreases items, 0nat,
{
    let mut parts: Vec<String> = Vec::new();
    let mut i: usize = 0;
    while i < items.len()
        invariant
            i <= items.len(),
            parts@.len() == i,
            forall|j: int| 0 <= j < i ==> setitem_supported(#[trigger] items@[j]),
            forall|j: int| 0 <= j < i ==> (#[trigger] parts@[j])@ == setitem_text(items@[j]),
        decreases items.len() - i,
    {
        let part = format_setitem(&items[i])?;
        parts.push(part);
        i += 1;
    }
    assert(texts(parts@) =~= setitem_texts(items@));
    Ok(parts)
}

/// The text of a clause of a comprehension: `if` and a condition, or `for`,
/// the targets, `in` and the iterable, with `async` in front where the clause
/// has it.
pub fn format_comp(comp: &ComprehensionChunk) -> (r: Result<String, FormatError>)
    ensures
        r is Ok <==> comp_supported(*comp),
        r is Ok ==> r->Ok_0@ == comp_text(*comp),
    decreases comp, 0nat,
{
    match comp {
        ComprehensionChunk::If { cond } => {
            let mut s = String::from_str("if ");
            s.append(format_expr(cond)?.as_str());
            Ok(s)
        },
        ComprehensionChunk::For { is_async, item, iterator } => {
            let mut s = String::from_str(if *is_async {
                "async "
            } else {
                ""
            });
            s.append("for ");
            s.append(comma_join(&format_exprs(item)?).as_str());
            s.append(" in ");
            s.append(format_expr(iterator)?.as_str());
            Ok(s)
        },
    }
}

/// The text of each clause of a comprehension.
fn format_comps(chunks: &Vec<ComprehensionChunk>) -> (r: Result<Vec<String>, FormatError>)
    ensures
        r is Ok <==> comps_supported(chunks@),
        r is Ok ==> texts(r->Ok_0@) == comp_texts(chunks@),
    decreases chunks, 0nat,
{
    let mut parts: Vec<String> = Vec::new();
    let mut i: usize = 0;
    while i < chunks.len()
        invariant
            i <= chunks.len(),
            parts@.len() == i,
            forall|j: int| 0 <= j < i ==> comp_supported(#[trigger] chunks@[j]),
            forall|j: int| 0 <= j < i ==> (#[trigger] parts@[j])@ == comp_text(chunks@[j]),
        decreases chunks.len() - i,
    {
        let part = format_comp(&chunks[i])?;
        parts.push(part);
        i += 1;
    }
    assert(texts(parts@) =~= comp_texts(chunks@));
    Ok(parts)
}

/// The text of an index or a slice: an expression, or two or three bounds
/// with a colon between them, each bound left out where the slice has none.
pub fn format_subscript(sub: &Subscript) -> (r: Result<String, FormatError>)
    ensures
        r is Ok <==> subscript_supported(*sub),
        r is Ok ==> r->Ok_0@ == subscript_text(*sub),
    decreases sub, 0nat,
{
    match sub {
        Subscript::Simple(e) => format_expr(e),
        Subscript::Double(lower, upper) => {
            let mut s = format_opt_expr(lower)?;
            s.append(":");
            s.append(format_opt_expr(upper)?.as_str());
            Ok(s)
        },
        Subscript::Triple(lower, upper, step) => {
            let mut s = format_opt_expr(lower)?;
            s.append(":");
            s.append(format_opt_expr(upper)?.as_str());
            s.append(":");
            s.append(format_opt_expr(step)?.as_str());
            Ok(s)
        },
    }
}

/// The text of each index or slice of a subscript.
fn format_subscripts(subs: &Vec<Subscript>) -> (r: Result<Vec<String>, FormatError>)
    ensures
        r is Ok <==> subscripts_supported(subs@),
        r is Ok ==> texts(r->Ok_0@) == subscript_texts(subs@),
    decreases subs, 0nat,
{
    let mut parts: Vec<String> = Vec::new();
    let mut i: usize = 0;
    while i < subs.len()
        invariant
            i <= subs.len(),
            parts@.len() == i,
            forall|j: int| 0 <= j < i ==> subscript_supported(#[trigger] subs@[j]),
            forall|j: int| 0 <= j < i ==> (#[trigger] parts@[j])@ == subscript_text(subs@[j]),
        decreases subs.len() - i,
    {
        let part = format_subscript(&subs[i])?;
        parts.push(part);
        i += 1;
    }
    assert(texts(parts@) =~= subscript_texts(subs@));
    Ok(parts)
}

/// The text of a positional argument: an expression, or `*` and an iterable.
pub fn format_pos_arg(arg: &Argument<Expression>) -> (r: Result<String, FormatError>)
    ensures
        r is Ok <==> pos_arg_supported(*arg),
        r is Ok ==> r->Ok_0@ == pos_arg_text(*arg),
    decreases arg, 0nat,
{
    match arg {
        Argument::Normal(e) => format_expr(e),
        Argument::Star(e) => {
            let mut s = String::from_str("*");
            s.append(format_expr(e)?.as_str());
            Ok(s)
        },
    }
}

/// The text of each positional argument of a call.
fn format_pos_args(args: &Vec<Argument<Expression>>) -> (r: Result<Vec<String>, FormatError>)
    ensures
        r is Ok <==> pos_args_supported(args@),
        r is Ok ==> texts(r->Ok_0@) == pos_arg_texts(args@),
    decreases args, 0nat,
{
    let mut parts: Vec<String> = Vec::new();
    let mut i: usize = 0;
    while i < args.len()
        invariant
            i <= args.len(),
            parts@.len() == i,
            forall|j: int| 0 <= j < i ==> pos_arg_supported(#[trigger] args@[j]),
            forall|j: int| 0 <= j < i ==> (#[trigger] parts@[j])@ == pos_arg_text(args@[j]),
        decreases args.len() - i,
    {
        let part = format_pos_arg(&args[i])?;
        parts.push(part);
        i += 1;
    }
    assert(texts(parts@) =~= pos_arg_texts(args@));
    Ok(parts)
}

/// The text of a keyword argument: `name=value`, or `**` and a mapping.
pub fn format_kw_arg(arg: &Argument<(Name, Expression)>) -> (r: Result<String, FormatError>)
    ensures
        r is Ok <==> kw_arg_supported(*arg),
        r is Ok ==> r->Ok_0@ == kw_arg_text(*arg),
    decreases arg, 0nat,
{
    match arg {
        Argument::Normal(pair) => {
            let mut s = pair.0.clone();
            s.append("=");
            s.append(format_expr(&pair.1)?.as_str());
            Ok(s)
        },
        Argument::Star(e) => {
            let mut s = String::from_str("**");
            s.append(format_expr(e)?.as_str());
            Ok(s)
        },
    }
}

/// The text of each keyword argument of a call.
fn format_kw_args(args: &Vec<Argument<(Name, Expression)>>) -> (r: Result<Vec<String>, FormatError>)
    ensures
        r is Ok <==> kw_args_supported(args@),
        r is Ok ==> texts(r->Ok_0@) == kw_arg_texts(args@),
    decreases args, 0nat,
{
    let mut parts: Vec<String> = Vec::new();
    let mut i: usize = 0;
    while i < args.len()
        invariant
            i <= args.len(),
            parts@.len() == i,
            forall|j: int| 0 <= j < i ==> kw_arg_supported(#[trigger] args@[j]),
            forall|j: int| 0 <= j < i ==> (#[trigger] parts@[j])@ == kw_arg_text(args@[j]),
        decreases args.len() - i,
    {
        let part = format_kw_arg(&args[i])?;
        parts.push(part);
        i += 1;
    }
    assert(texts(parts@) =~= kw_arg_texts(args@));
    Ok(parts)
}

/// The text of the arguments of a call, without the parentheses: the
/// positional arguments, then the keyword arguments, with a comma and a space
/// between each two.
pub fn format_args(args: &Arglist) -> (r: Result<String, FormatError>)
    ensures
        r is Ok <==> args_supported(*args),
        r is Ok ==> r->Ok_0@ == args_text(*args),
    decreases args, 1nat,
{
    let mut groups: Vec<String> = Vec::new();
    let positional = format_pos_args(&args.positional_args)?;
    if args.positional_args.len() > 0 {
        groups.push(comma_join(&positional));
    }
    let keyword = format_kw_args(&args.keyword_args)?;
    if args.keyword_args.len() > 0 {
        groups.push(comma_join(&keyword));
    }
    assert(texts(groups@) =~= args_groups(*args));
    Ok(comma_join(&groups))
}

/// The text of a default value, with its equals sign; nothing where there is
/// no default.
fn format_default(value: &Option<Expression>) -> (r: Result<String, FormatError>)
    ensures
        r is Ok <==> opt_expr_supported(*value),
        r is Ok ==> r->Ok_0@ == default_text(*value),
    decreases value, 1nat,
{
    match value {
        Some(e) => {
            let mut s = String::from_str("=");
            s.append(format_expr(e)?.as_str());
            Ok(s)
        },
        None => Ok(String::new()),
    }
}

/// The text of a parameter of a lambda: `name` or `name=default`.
pub fn format_untyped_param(param: &(Name, Option<Expression>)) -> (r: Result<String, FormatError>)
    ensures
        r is Ok <==> untyped_param_supported(*param),
        r is Ok ==> r->Ok_0@ == untyped_param_text(*param),
    decreases param, 0nat,
{
    let mut s = param.0.clone();
    s.append(format_default(&param.1)?.as_str());
    Ok(s)
}

/// The text of each parameter of a lambda.
fn format_untyped_param_list(params: &Vec<(Name, Option<Expression>)>) -> (r: Result<
    Vec<String>,
    FormatError,
>)
    ensures
        r is Ok <==> untyped_params_list_supported(params@),
        r is Ok ==> texts(r->Ok_0@) == untyped_param_texts(params@),
    decreases params, 0nat,
{
    let mut parts: Vec<String> = Vec::new();
    let mut i: usize = 0;
    while i < params.len()
        invariant
            i <= params.len(),
            parts@.len() == i,
            forall|j: int| 0 <= j < i ==> untyped_param_supported(#[trigger] params@[j]),
            forall|j: int| 0 <= j < i ==> (#[trigger] parts@[j])@ == untyped_param_text(params@[j]),
        decreases params.len() - i,
    {
        let part = format_untyped_param(&params[i])?;
        parts.push(part);
        i += 1;
    }
    assert(texts(parts@) =~= untyped_param_texts(params@));
    Ok(parts)
}

/// The text of the parameter list of a lambda: positional parameters, the
/// star, keyword-only parameters and the double star, with a comma and a
/// space between each two.
pub fn format_untyped_params(param: &UntypedArgsList) -> (r: Result<String, FormatError>)
    ensures
        r is Ok <==> untyped_params_supported(*param),
        r is Ok ==> r->Ok_0@ == untyped_params_text(*param),
    decreases param, 1nat,
{
    let mut groups: Vec<String> = Vec::new();
    let positional = format_untyped_param_list(&param.positional_args)?;
    if param.positional_args.len() > 0 {
        groups.push(comma_join(&positional));
    }
    match &param.star_args {
        StarParams::No => {},
        StarParams::Anonymous => {
            groups.push(String::from_str("*"));
        },
        StarParams::Named(name) => {
            let mut star = String::from_str("*");
            star.append(name.as_str());
            groups.push(star);
        },
    }
    let keyword = format_untyped_param_list(&param.keyword_args)?;
    if param.keyword_args.len() > 0 {
        groups.push(comma_join(&keyword));
    }
    match &param.star_kwargs {
        Some(name) => {
            let mut star = String::from_str("**");
            star.append(name.as_str());
            groups.push(star);
        },
        None => {},
    }
    assert(texts(groups@) =~= untyped_params_groups(*param));
    Ok(comma_join(&groups))
}

/// The text of an annotation, with its colon; nothing where there is none.
fn format_annotation(typed: &Option<Expression>) -> (r: Result<String, FormatError>)
    ensures
        r is Ok <==> opt_expr_supported(*typed),
        r is Ok ==> r->Ok_0@ == annotation_text(*typed),
{
    match typed {
        Some(e) => {
            let mut s = String::from_str(":");
            s.append(format_expr(e)?.as_str());
            Ok(s)
        },
        None => Ok(String::new()),
    }
}

/// The text of a parameter of a function definition: its name, then `:` and
/// the annotation, then `=` and the default, each where the parameter has it.
pub fn format_typed_param(param: &(Name, Option<Expression>, Option<Expression>)) -> (r: Result<
    String,
    FormatError,
>)
    ensures
        r is Ok <==> typed_param_supported(*param),
        r is Ok ==> r->Ok_0@ == typed_param_text(*param),
{
    let mut s = param.0.clone();
    s.append(format_annotation(&param.1)?.as_str());
    s.append(format_default(&param.2)?.as_str());
    Ok(s)
}

/// The text of each parameter of a function definition.
fn format_typed_param_list(params: &Vec<(Name, Option<Expression>, Option<Expression>)>) -> (r:
    Result<Vec<String>, FormatError>)
    ensures
        r is Ok <==> typed_params_list_supported(params@),
        r is Ok ==> texts(r->Ok_0@) == typed_param_texts(params@),
{
    let mut parts: Vec<String> = Vec::new();
    let mut i: usize = 0;
    while i < params.len()
        invariant
            i <= params.len(),
            parts@.len() == i,
            forall|j: int| 0 <= j < i ==> typed_param_supported(#[trigger] params@[j]),
            forall|j: int| 0 <= j < i ==> (#[trigger] parts@[j])@ == typed_param_text(params@[j]),
        decreases params.len() - i,
    {
        let part = format_typed_param(&params[i])?;
        parts.push(part);
        i += 1;
    }
    assert(texts(parts@) =~= typed_param_texts(params@));
    Ok(parts)
}

/// A star, a name and its annotation.
fn format_starred(star: &str, named: &(Name, Option<Expression>)) -> (r: Result<
    String,
    FormatError,
>)
    ensures
        r is Ok <==> opt_expr_supported(named.1),
        r is Ok ==> r->Ok_0@ == star@ + named.0@ + annotation_text(named.1),
{
    let mut s = String::from_str(star);
    s.append(named.0.as_str());
    s.append(format_annotation(&named.1)?.as_str());
    Ok(s)
}

/// The text of the parameter list of a function definition: positional
/// parameters, the star, keyword-only parameters and the double star, with a
/// comma and a space between each two.
pub fn format_typed_params(param: &TypedArgsList) -> (r: Result<String, FormatError>)
    ensures
        r is Ok <==> typed_params_supported(*param),
        r is Ok ==> r->Ok_0@ == typed_params_text(*param),
{
    let mut groups: Vec<String> = Vec::new();
    let positional = format_typed_param_list(&param.positional_args)?;
    if param.positional_args.len() > 0 {
        groups.push(comma_join(&positional));
    }
    match &param.star_args {
        StarParams::No => {},
        StarParams::Anonymous => {
            groups.push(String::from_str("*"));
        },
        StarParams::Named(named) => {
            groups.push(format_starred("*", named)?);
        },
    }
    let keyword = format_typed_param_list(&param.keyword_args)?;
    if param.keyword_args.len() > 0 {
        groups.push(comma_join(&keyword));
    }
    match &param.star_kwargs {
        Some(named) => {
            groups.push(format_starred("**", named)?);
        },
        None => {},
    }
    assert(texts(groups@) =~= typed_params_groups(*param));
    Ok(comma_join(&groups))
}

/// An alias with ` as ` in front; nothing where there is none.
fn format_alias(alias: &Option<Name>) -> (s: String)
    ensures
        s@ == alias_text(*alias),
{
    match alias {
        Some(name) => {
            let mut s = String::from_str(" as ");
            s.append(name.as_str());
            s
        },
        None => String::new(),
    }
}

/// Appends `n` full stops.
fn push_dots(n: usize, s: &mut String)
    ensures
        final(s)@ == old(s)@ + dots(n as nat),
{
    let mut i: usize = 0;
    assert(s@ =~= old(s)@ + dots(0));
    while i < n
        invariant
            i <= n,
            s@ == old(s)@ + dots(i as nat),
        decreases n - i,
    {
        s.append(".");
        i += 1;
        proof {
            reveal_strlit(".");
        }
        assert(s@ =~= old(s)@ + dots(i as nat));
    }
}

/// The text of an import: `from`, the leading dots and the path, `import`
/// and the names with their aliases, or `*` where there are no names; or
/// `import` and the modules with their aliases. Names and modules have a
/// comma and a space between each two.
pub fn format_import(imp: &Import) -> (s: String)
    ensures
        s@ == import_text(*imp),
{
    match imp {
        Import::ImportFrom { leading_dots, path, names } => {
            let mut s = String::from_str("from ");
            push_dots(*leading_dots, &mut s);
            s.append(format_dotted_name(path.as_slice()).as_str());
            s.append(" import ");
            if names.len() == 0 {
                s.append("*");
            } else {
                let mut parts: Vec<String> = Vec::new();
                let mut i: usize = 0;
                while i < names.len()
                    invariant
                        i <= names.len(),
                        parts@.len() == i,
                        forall|j: int|
                            0 <= j < i ==> (#[trigger] parts@[j])@ == names@[j].0@ + alias_text(
                                names@[j].1,
                            ),
                    decreases names.len() - i,
                {
                    let mut part = names[i].0.clone();
                    part.append(format_alias(&names[i].1).as_str());
                    parts.push(part);
                    i += 1;
                }
                assert(texts(parts@) =~= imported_name_texts(names@));
                s.append(comma_join(&parts).as_str());
            }
            s
        },
        Import::Import { names } => {
            let mut parts: Vec<String> = Vec::new();
            let mut i: usize = 0;
            while i < names.len()
                invariant
                    i <= names.len(),
                    parts@.len() == i,
                    forall|j: int|
                        0 <= j < i ==> (#[trigger] parts@[j])@ == dotted_name_text(names@[j].0@)
                            + alias_text(names@[j].1),
                decreases names.len() - i,
            {
                let mut part = format_dotted_name(names[i].0.as_slice());
                part.append(format_alias(&names[i].1).as_str());
                parts.push(part);
                i += 1;
            }
            assert(texts(parts@) =~= imported_module_texts(names@));
            let mut s = String::from_str("import ");
            s.append(comma_join(&parts).as_str());
            s
        },
    }
}

/// The spelling of an augmented assignment operator.
fn aug_assign_str(op: &AugAssignOp) -> (s: &'static str)
    ensures
        s@ == aug_assign_text(*op),
{
    match op {
        AugAssignOp::Add => "+=",
        AugAssignOp::Sub => "-=",
        AugAssignOp::Mult => "*=",
        AugAssignOp::MatMult => "@=",
        AugAssignOp::Div => "/=",
        AugAssignOp::Mod => "%=",
        AugAssignOp::BitAnd => "&=",
        AugAssignOp::BitOr => "|=",
        AugAssignOp::BitXor => "^=",
        AugAssignOp::Lshift => "<<=",
        AugAssignOp::Rshift => ">>=",
        AugAssignOp::Power => "**=",
        AugAssignOp::Floordiv => "//=",
    }
}

/// The expressions of a list with a comma and a space between each two.
fn format_expr_list(es: &Vec<Expression>) -> (r: Result<String, FormatError>)
    ensures
        r is Ok <==> exprs_supported(es@),
        r is Ok ==> r->Ok_0@ == joined(expr_texts(es@), ", "@),
{
    let parts = format_exprs(es)?;
    Ok(comma_join(&parts))
}

/// The further targets of an assignment, each with its equals sign.
fn format_assigned(rhs: &Vec<Vec<Expression>>) -> (r: Result<String, FormatError>)
    ensures
        r is Ok <==> forall|i: int| 0 <= i < rhs@.len() ==> exprs_supported(#[trigger] rhs@[i]@),
        r is Ok ==> r->Ok_0@ == concat(assigned_texts(rhs@)),
{
    let mut s = String::new();
    let mut i: usize = 0;
    while i < rhs.len()
        invariant
            i <= rhs.len(),
            forall|j: int| 0 <= j < i ==> exprs_supported(#[trigger] rhs@[j]@),
            s@ == concat_first(assigned_texts(rhs@), i as nat),
        decreases rhs.len() - i,
    {
        let part = format_expr_list(&rhs[i])?;
        s.append(" = ");
        s.append(part.as_str());
        i += 1;
        assert(s@ =~= concat_first(assigned_texts(rhs@), i as nat));
    }
    Ok(s)
}

/// The line of a simple statement, without indentation and line break;
/// nothing for a compound statement.
fn format_simple_statement(stmt: &Statement) -> (r: Result<String, FormatError>)
    ensures
        r is Ok <==> simple_stmt_supported(*stmt),
        r is Ok ==> r->Ok_0@ == simple_stmt_text(*stmt),
{
    match stmt {
        Statement::Pass => Ok(String::from_str("pass")),
        Statement::Del(names) => {
            let mut s = String::from_str("del ");
            s.append(comma_join(names).as_str());
            Ok(s)
        },
        Statement::Break => Ok(String::from_str("break")),
        Statement::Continue => Ok(String::from_str("continue")),
        Statement::Return(es) => {
            let mut s = String::from_str("return ");
            s.append(format_expr_list(es)?.as_str());
            Ok(s)
        },
        Statement::RaiseExcFrom(exc, cause) => {
            let mut s = String::from_str("raise ");
            s.append(format_expr(exc)?.as_str());
            s.append(" from ");
            s.append(format_expr(cause)?.as_str());
            Ok(s)
        },
        Statement::RaiseExc(exc) => {
            let mut s = String::from_str("raise ");
            s.append(format_expr(exc)?.as_str());
            Ok(s)
        },
        Statement::Raise => Ok(String::from_str("raise")),
        Statement::Global(names) => {
            let mut s = String::from_str("global ");
            s.append(comma_join(names).as_str());
            Ok(s)
        },
        Statement::Nonlocal(names) => {
            let mut s = String::from_str("nonlocal ");
            s.append(comma_join(names).as_str());
            Ok(s)
        },
        Statement::Assert(cond, message) => {
            let mut s = String::from_str("assert ");
            s.append(format_expr(cond)?.as_str());
            match message {
                Some(m) => {
                    s.append(", ");
                    s.append(format_expr(m)?.as_str());
                },
                None => {},
            }
            Ok(s)
        },
        Statement::Import(imp) => Ok(format_import(imp)),
        Statement::Expressions(es) => format_expr_list(es),
        Statement::Assignment(lhs, rhs) => {
            let mut s = format_expr_list(lhs)?;
            s.append(format_assigned(rhs)?.as_str());
            Ok(s)
        },
        Statement::TypedAssignment(lhs, typed, rhs) => {
            let mut s = format_expr_list(lhs)?;
            s.append(": ");
            s.append(format_expr(typed)?.as_str());
            let value = format_expr_list(rhs)?;
            if rhs.len() > 0 {
                s.append(" = ");
                s.append(value.as_str());
            }
            Ok(s)
        },
        Statement::AugmentedAssignment(lhs, op, rhs) => {
            let mut s = format_expr_list(lhs)?;
            s.append(" ");
            s.append(aug_assign_str(op));
            s.append(" ");
            s.append(format_expr_list(rhs)?.as_str());
            Ok(s)
        },
        Statement::Compound(_) => Ok(String::new()),
    }
}

/// An indentation of `indent` spaces.
fn indentation(indent: usize) -> (pad: String)
    ensures
        pad@ == spaces(indent as nat),
{
    let mut pad = String::new();
    push_indent(indent, &mut pad);
    assert(pad@ =~= spaces(indent as nat));
    pad
}

/// The indentation of a block that is nested in one indented by `pad`: four
/// spaces more.
fn nested(pad: &str) -> (inner: String)
    requires
        pad@ == spaces(pad@.len()),
    ensures
        inner@ == spaces(pad@.len() + 4),
{
    let mut inner = String::from_str(pad);
    inner.append("    ");
    proof {
        reveal_strlit("    ");
    }
    assert(inner@ =~= spaces(pad@.len() + 4));
    inner
}

/// A statement in a block whose indentation is `pad`.
fn statement_at(pad: &str, stmt: &Statement) -> (r: Result<String, FormatError>)
    requires
        pad@ == spaces(pad@.len()),
    ensures
        r is Ok <==> stmt_supported(*stmt),
        r is Ok ==> r->Ok_0@ == stmt_text(pad@.len(), *stmt),
    decreases stmt, 0nat,
{
    let mut s = String::from_str(pad);
    match stmt {
        Statement::Compound(c) => {
            s.append(compound_at(pad, c)?.as_str());
        },
        _ => {
            s.append(format_simple_statement(stmt)?.as_str());
            s.append("\n");
        },
    }
    Ok(s)
}

/// A block whose indentation is `pad`.
fn block_at(pad: &str, stmts: &Vec<Statement>) -> (r: Result<String, FormatError>)
    requires
        pad@ == spaces(pad@.len()),
    ensures
        r is Ok <==> block_supported(stmts@),
        r is Ok ==> r->Ok_0@ == block_text(pad@.len(), stmts@),
    decreases stmts, 1nat,
{
    let mut s = String::new();
    let mut i: usize = 0;
    while i < stmts.len()
        invariant
            i <= stmts.len(),
            pad@ == spaces(pad@.len()),
            forall|j: int| 0 <= j < i ==> stmt_supported(#[trigger] stmts@[j]),
            s@ == concat_first(stmt_texts(pad@.len(), stmts@), i as nat),
        decreases stmts.len() - i,
    {
        let part = statement_at(pad, &stmts[i])?;
        s.append(part.as_str());
        i += 1;
    }
    Ok(s)
}

/// A line that opens a block, its line break, and the block one level
/// deeper than `pad`.
fn opened_block_at(pad: &str, opening: String, block: &Vec<Statement>) -> (r: Result<
    String,
    FormatError,
>)
    requires
        pad@ == spaces(pad@.len()),
    ensures
        r is Ok <==> block_supported(block@),
        r is Ok ==> r->Ok_0@ == opening@ + "\n"@ + block_text(pad@.len() + 4, block@),
    decreases block, 2nat,
{
    let mut s = opening;
    s.append("\n");
    s.append(block_at(nested(pad).as_str(), block)?.as_str());
    Ok(s)
}

/// The line that opens a branch of an `if` statement.
fn branch_line(first: bool, cond: &Expression) -> (r: Result<String, FormatError>)
    ensures
        r is Ok <==> expr_supported(*cond),
        r is Ok ==> r->Ok_0@ == branch_line_text(first, *cond),
{
    let mut s = String::from_str(if first {
        "if "
    } else {
        "elif "
    });
    s.append(format_expr(cond)?.as_str());
    s.append(":");
    Ok(s)
}

/// The branches of an `if` statement in a block whose indentation is `pad`.
fn branches_at(pad: &str, branches: &Vec<(Expression, Vec<Statement>)>) -> (r: Result<
    String,
    FormatError,
>)
    requires
        pad@ == spaces(pad@.len()),
    ensures
        r is Ok <==> branches_supported(branches@),
        r is Ok ==> r->Ok_0@ == concat(branch_texts(pad@.len(), branches@)),
    decreases branches, 0nat,
{
    let mut s = String::new();
    let mut i: usize = 0;
    while i < branches.len()
        invariant
            i <= branches.len(),
            pad@ == spaces(pad@.len()),
            forall|j: int|
                0 <= j < i ==> expr_supported((#[trigger] branches@[j]).0) && block_supported(
                    branches@[j].1@,
                ),
            s@ == concat_first(branch_texts(pad@.len(), branches@), i as nat),
        decreases branches.len() - i,
    {
        let ghost before = s@;
        let mut part = if i == 0 {
            String::new()
        } else {
            String::from_str(pad)
        };
        part.append(branch_line(i == 0, &branches[i].0)?.as_str());
        s.append(opened_block_at(pad, part, &branches[i].1)?.as_str());
        assert(s@ =~= before + branch_texts(pad@.len(), branches@)[i as int]);
        i += 1;
    }
    Ok(s)
}

/// An `else` part in a block whose indentation is `pad`; nothing where there
/// is none.
fn else_at(pad: &str, else_block: &Option<Vec<Statement>>) -> (r: Result<String, FormatError>)
    requires
        pad@ == spaces(pad@.len()),
    ensures
        r is Ok <==> else_supported(*else_block),
        r is Ok ==> r->Ok_0@ == else_text(pad@.len(), *else_block),
    decreases else_block, 0nat,
{
    match else_block {
        Some(block) => {
            let mut opening = String::from_str(pad);
            opening.append("else:");
            opened_block_at(pad, opening, block)
        },
        None => Ok(String::new()),
    }
}

/// A section of a `try` statement in a block whose indentation is `pad`:
/// the line that opens it and the block, or nothing where the block is
/// empty.
fn section_at(pad: &str, opening: &str, block: &Vec<Statement>) -> (r: Result<String, FormatError>)
    requires
        pad@ == spaces(pad@.len()),
    ensures
        r is Ok <==> block_supported(block@),
        r is Ok ==> r->Ok_0@ == section_text(pad@.len(), opening@, block@),
    decreases block, 3nat,
{
    if block.len() > 0 {
        let mut line = String::from_str(pad);
        line.append(opening);
        opened_block_at(pad, line, block)
    } else {
        Ok(String::new())
    }
}

/// The line that opens an `except` clause that names what it catches.
fn except_line(guard: &Expression, alias: &Option<Name>) -> (r: Result<String, FormatError>)
    ensures
        r is Ok <==> expr_supported(*guard),
        r is Ok ==> r->Ok_0@ == except_line_text(*guard, *alias),
{
    let mut s = String::from_str("except ");
    s.append(format_expr(guard)?.as_str());
    s.append(format_alias(alias).as_str());
    s.append(":");
    Ok(s)
}

/// The `except` clauses that name what they catch, in a block whose
/// indentation is `pad`.
fn excepts_at(pad: &str, clauses: &Vec<(Expression, Option<Name>, Vec<Statement>)>) -> (r: Result<
    String,
    FormatError,
>)
    requires
        pad@ == spaces(pad@.len()),
    ensures
        r is Ok <==> excepts_supported(clauses@),
        r is Ok ==> r->Ok_0@ == concat(except_texts(pad@.len(), clauses@)),
    decreases clauses, 0nat,
{
    let mut s = String::new();
    let mut i: usize = 0;
    while i < clauses.len()
        invariant
            i <= clauses.len(),
            pad@ == spaces(pad@.len()),
            forall|j: int|
                0 <= j < i ==> expr_supported((#[trigger] clauses@[j]).0) && block_supported(
                    clauses@[j].2@,
                ),
            s@ == concat_first(except_texts(pad@.len(), clauses@), i as nat),
        decreases clauses.len() - i,
    {
        let ghost before = s@;
        let mut line = String::from_str(pad);
        line.append(except_line(&clauses[i].0, &clauses[i].1)?.as_str());
        s.append(opened_block_at(pad, line, &clauses[i].2)?.as_str());
        assert(s@ =~= before + except_texts(pad@.len(), clauses@)[i as int]);
        i += 1;
    }
    Ok(s)
}

/// A `try` statement in a block whose indentation is `pad`, from `try` on.
fn try_at(pad: &str, t: &Try) -> (r: Result<String, FormatError>)
    requires
        pad@ == spaces(pad@.len()),
    ensures
        r is Ok <==> try_supported(*t),
        r is Ok ==> r->Ok_0@ == try_text(pad@.len(), *t),
    decreases t, 0nat,
{
    let mut s = opened_block_at(pad, String::from_str("try:"), &t.try_block)?;
    s.append(excepts_at(pad, &t.except_clauses)?.as_str());
    s.append(section_at(pad, "except:", &t.last_except)?.as_str());
    s.append(section_at(pad, "else:", &t.else_block)?.as_str());
    s.append(section_at(pad, "finally:", &t.finally_block)?.as_str());
    Ok(s)
}

/// The line that opens a `for` statement.
fn for_line(is_async: bool, item: &Vec<Expression>, iterator: &Vec<Expression>) -> (r: Result<
    String,
    FormatError,
>)
    ensures
        r is Ok <==> exprs_supported(item@) && exprs_supported(iterator@),
        r is Ok ==> r->Ok_0@ == for_line_text(is_async, item@, iterator@),
{
    let mut s = String::from_str(if is_async {
        "async "
    } else {
        ""
    });
    s.append("for ");
    s.append(format_expr_list(item)?.as_str());
    s.append(" in ");
    s.append(format_expr_list(iterator)?.as_str());
    s.append(":");
    Ok(s)
}

/// The line that opens a `while` statement.
fn while_line(cond: &Expression) -> (r: Result<String, FormatError>)
    ensures
        r is Ok <==> expr_supported(*cond),
        r is Ok ==> r->Ok_0@ == while_line_text(*cond),
{
    let mut s = String::from_str("while ");
    s.append(format_expr(cond)?.as_str());
    s.append(":");
    Ok(s)
}

/// The line that opens a `with` statement: what it enters, each with its
/// target after ` as ` where it has one, with a comma and a space between
/// each two.
fn with_line(contexts: &Vec<(Expression, Option<Expression>)>) -> (r: Result<String, FormatError>)
    ensures
        r is Ok <==> contexts_supported(contexts@),
        r is Ok ==> r->Ok_0@ == with_line_text(contexts@),
{
    let mut parts: Vec<String> = Vec::new();
    let mut i: usize = 0;
    while i < contexts.len()
        invariant
            i <= contexts.len(),
            parts@.len() == i,
            forall|j: int|
                0 <= j < i ==> expr_supported((#[trigger] contexts@[j]).0) && opt_expr_supported(
                    contexts@[j].1,
                ),
            forall|j: int|
                0 <= j < i ==> (#[trigger] parts@[j])@ == context_texts(contexts@)[j],
        decreases contexts.len() - i,
    {
        let mut part = format_expr(&contexts[i].0)?;
        match &contexts[i].1 {
            Some(target) => {
                part.append(" as ");
                part.append(format_expr(target)?.as_str());
            },
            None => {},
        }
        parts.push(part);
        i += 1;
    }
    assert(texts(parts@) =~= context_texts(contexts@));
    let mut s = String::from_str("with ");
    s.append(comma_join(&parts).as_str());
    s.append(":");
    Ok(s)
}

/// The line of a decorator.
fn decorator_line(d: &Decorator) -> (r: Result<String, FormatError>)
    ensures
        r is Ok <==> decorator_supported(*d),
        r is Ok ==> r->Ok_0@ == decorator_line_text(*d),
{
    let mut s = String::from_str("@");
    s.append(dot_join(&d.name).as_str());
    match &d.args {
        Some(arglist) => {
            s.append("(");
            s.append(format_args(arglist)?.as_str());
            s.append(")");
        },
        None => {},
    }
    Ok(s)
}

/// The decorator lines of a definition in a block whose indentation is
/// `pad`.
fn decorators_at(pad: &str, decorators: &Vec<Decorator>) -> (r: Result<String, FormatError>)
    requires
        pad@ == spaces(pad@.len()),
    ensures
        r is Ok <==> decorators_supported(decorators@),
        r is Ok ==> r->Ok_0@ == decorators_text(pad@.len(), decorators@),
{
    let mut s = String::new();
    let mut i: usize = 0;
    while i < decorators.len()
        invariant
            i <= decorators.len(),
            pad@ == spaces(pad@.len()),
            forall|j: int| 0 <= j < i ==> decorator_supported(#[trigger] decorators@[j]),
            s@ == concat_first(decorator_texts(pad@.len(), decorators@), i as nat),
        decreases decorators.len() - i,
    {
        let ghost before = s@;
        let line = decorator_line(&decorators[i])?;
        s.append(pad);
        s.append(line.as_str());
        s.append("\n");
        assert(s@ =~= before + decorator_texts(pad@.len(), decorators@)[i as int]);
        i += 1;
    }
    Ok(s)
}

/// The line that opens a function definition.
fn def_line(funcdef: &Funcdef) -> (r: Result<String, FormatError>)
    ensures
        r is Ok <==> typed_params_supported(funcdef.parameters) && opt_expr_supported(
            funcdef.return_type,
        ),
        r is Ok ==> r->Ok_0@ == def_line_text(*funcdef),
{
    let mut s = String::from_str(if funcdef.is_async {
        "async "
    } else {
        ""
    });
    s.append("def ");
    s.append(funcdef.name.as_str());
    s.append("(");
    s.append(format_typed_params(&funcdef.parameters)?.as_str());
    s.append(")");
    match &funcdef.return_type {
        Some(ret) => {
            s.append(" -> ");
            s.append(format_expr(ret)?.as_str());
        },
        None => {},
    }
    s.append(":");
    Ok(s)
}

/// A function definition in a block whose indentation is `pad`, after the
/// indentation of the statement.
fn funcdef_at(pad: &str, funcdef: &Funcdef) -> (r: Result<String, FormatError>)
    requires
        pad@ == spaces(pad@.len()),
    ensures
        r is Ok <==> funcdef_supported(*funcdef),
        r is Ok ==> r->Ok_0@ == funcdef_text(pad@.len(), *funcdef),
    decreases funcdef, 0nat,
{
    let mut s = String::from_str("\n");
    s.append(decorators_at(pad, &funcdef.decorators)?.as_str());
    s.append(pad);
    s.append(def_line(funcdef)?.as_str());
    s.append("\n");
    s.append(block_at(nested(pad).as_str(), &funcdef.code)?.as_str());
    s.append("\n");
    Ok(s)
}

/// A compound statement in a block whose indentation is `pad`, after the
/// indentation of its first line.
fn compound_at(pad: &str, stmt: &CompoundStatement) -> (r: Result<String, FormatError>)
    requires
        pad@ == spaces(pad@.len()),
    ensures
        r is Ok <==> compound_supported(*stmt),
        r is Ok ==> r->Ok_0@ == compound_text(pad@.len(), *stmt),
    decreases stmt, 0nat,
{
    match stmt {
        CompoundStatement::If(branches, else_block) => {
            let mut s = branches_at(pad, branches)?;
            s.append(else_at(pad, else_block)?.as_str());
            Ok(s)
        },
        CompoundStatement::For { is_async, item, iterator, for_block, else_block } => {
            let mut s = opened_block_at(pad, for_line(*is_async, item, iterator)?, for_block)?;
            s.append(else_at(pad, else_block)?.as_str());
            Ok(s)
        },
        CompoundStatement::While(cond, block, else_block) => {
            let mut s = opened_block_at(pad, while_line(cond)?, block)?;
            s.append(else_at(pad, else_block)?.as_str());
            Ok(s)
        },
        CompoundStatement::With(contexts, block) => opened_block_at(
            pad,
            with_line(contexts)?,
            block,
        ),
        CompoundStatement::Funcdef(funcdef) => funcdef_at(pad, funcdef),
        CompoundStatement::Classdef(_) => Err(FormatError::UnsupportedConstruct),
        CompoundStatement::Try(t) => try_at(pad, t),
    }
}

/// The text of a statement in a block that is indented by `indent` spaces,
/// or the fault if the printer has no rendering for it.
pub fn format_statement(indent: usize, stmt: &Statement) -> (r: Result<String, FormatError>)
    ensures
        r is Ok <==> stmt_supported(*stmt),
        r is Ok ==> r->Ok_0@ == stmt_text(indent as nat, *stmt),
{
    statement_at(indentation(indent).as_str(), stmt)
}

/// The text of a compound statement in a block that is indented by `indent`
/// spaces, after the indentation of its first line, or the fault if the
/// printer has no rendering for it.
pub fn format_compound_statement(indent: usize, stmt: &CompoundStatement) -> (r: Result<
    String,
    FormatError,
>)
    ensures
        r is Ok <==> compound_supported(*stmt),
        r is Ok ==> r->Ok_0@ == compound_text(indent as nat, *stmt),
{
    compound_at(indentation(indent).as_str(), stmt)
}

/// The decorator lines of a definition in a block that is indented by
/// `indent` spaces, or the fault if the printer has no rendering for an
/// argument of one.
pub fn format_decorators(indent: usize, decorators: &Vec<Decorator>) -> (r: Result<
    String,
    FormatError,
>)
    ensures
        r is Ok <==> decorators_supported(decorators@),
        r is Ok ==> r->Ok_0@ == decorators_text(indent as nat, decorators@),
{
    decorators_at(indentation(indent).as_str(), decorators)
}

/// The text of a function definition in a block that is indented by `indent`
/// spaces, after the indentation of the statement, or the fault if the
/// printer has no rendering for a part of it.
pub fn format_funcdef(indent: usize, funcdef: &Funcdef) -> (r: Result<String, FormatError>)
    ensures
        r is Ok <==> funcdef_supported(*funcdef),
        r is Ok ==> r->Ok_0@ == funcdef_text(indent as nat, *funcdef),
{
    funcdef_at(indentation(indent).as_str(), funcdef)
}

/// The text of a block that is indented by `indent` spaces, or the fault if
/// the printer has no rendering for one of its statements.
pub fn format_block(indent: usize, stmts: &Vec<Statement>) -> (r: Result<String, FormatError>)
    ensures
        r is Ok <==> block_supported(stmts@),
        r is Ok ==> r->Ok_0@ == block_text(indent as nat, stmts@),
{
    block_at(indentation(indent).as_str(), stmts)
}

/// The text of a module: its statements one after the other, none indented.
/// Where the printer has no rendering for a statement, the fault.
pub fn format_module(stmts: &[Statement]) -> (r: Result<String, FormatError>)
    ensures
        r is Ok <==> block_supported(stmts@),
        r is Ok ==> r->Ok_0@ == module_text(stmts@),
{
    let pad = indentation(0);
    let mut s = String::new();
    let mut i: usize = 0;
    while i < stmts.len()
        invariant
            i <= stmts.len(),
            pad@ == spaces(0),
            forall|j: int| 0 <= j < i ==> stmt_supported(#[trigger] stmts@[j]),
            s@ == concat_first(stmt_texts(0, stmts@), i as nat),
        decreases stmts.len() - i,
    {
        let part = statement_at(pad.as_str(), &stmts[i])?;
        s.append(part.as_str());
        i += 1;
    }
    Ok(s)
}

} // verus!
