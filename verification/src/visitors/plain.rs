//! Trees whose names hold no line break.
//!
//! A name is written as it is, so a line break in a name would break the
//! line that the name stands in. Nothing else that the printer writes
//! inside a line holds a line break: in a tree whose names hold none, the
//! text of every expression and every line is unbroken.

use vstd::prelude::*;
use crate::ast::{
    Arglist, Argument, AugAssignOp, Bop, CompoundStatement, ComprehensionChunk, Decorator,
    DictItem, Expression, Funcdef, Import, Name, SetItem, StarParams, Statement, Subscript, Try,
    TypedArgsList, UntypedArgsList, Uop,
};
use crate::text::{
    all_unbroken, dots, joined, lemma_concat_unbroken, lemma_int_text_unbroken,
    lemma_joined_unbroken, lemma_quoted_unbroken, spaces, texts, unbroken,
};
use crate::visitors::layout::{
    block_lines, block_lines_first, block_shaped, branch_lines_first, compound_lines,
    decorator_lines, else_lines, except_lines_first, funcdef_lines, header,
    lemma_block_indentation, lemma_block_layout, lemma_lines_split, line_shown, lines_unbroken,
    nested, section_lines, split_lines, stmt_lines, try_lines, Line,
};
use crate::visitors::rendering::{
    annotation_text, args_groups, args_text, assigned_texts, aug_assign_text, block_text,
    bop_text, branch_line_text, comp_text, comp_texts, context_texts, decorator_line_text,
    def_line_text, default_text, dictitem_text, dictitem_texts, dotted_name_text,
    except_line_text, expr_text, expr_texts, for_line_text, import_text, imported_module_texts,
    imported_name_texts, kw_arg_texts, operand_text, opt_expr_text, pos_arg_texts, setitem_text,
    setitem_texts, simple_stmt_text, subscript_text, subscript_texts, typed_param_texts,
    typed_params_groups, typed_params_text, untyped_param_texts, untyped_params_groups,
    untyped_params_text, uop_text, while_line_text, with_line_text,
};

verus! {

/// Whether none of the names holds a line break.
pub open spec fn names_plain(names: Seq<Name>) -> bool {
    forall|i: int| 0 <= i < names.len() ==> unbroken((#[trigger] names[i])@)
}

/// Whether no name in an expression holds a line break.
pub open spec fn expr_plain(e: Expression) -> bool
    decreases e, 0nat,
{
    match e {
        Expression::Name(n) => unbroken(n@),
        Expression::DictLiteral(items) => dictitems_plain(items@),
        Expression::SetLiteral(items) => setitems_plain(items@),
        Expression::ListLiteral(items) => setitems_plain(items@),
        Expression::TupleLiteral(items) => setitems_plain(items@),
        Expression::DictComp(item, chunks) => dictitem_plain(*item) && comps_plain(chunks@),
        Expression::SetComp(item, chunks) => setitem_plain(*item) && comps_plain(chunks@),
        Expression::ListComp(item, chunks) => setitem_plain(*item) && comps_plain(chunks@),
        Expression::Generator(item, chunks) => setitem_plain(*item) && comps_plain(chunks@),
        Expression::Call(callee, args) => expr_plain(*callee) && args_plain(args),
        Expression::Subscript(base, subs) => expr_plain(*base) && subscripts_plain(subs@),
        Expression::Attribute(base, n) => expr_plain(*base) && unbroken(n@),
        Expression::Uop(_, operand) => expr_plain(*operand),
        Expression::Bop(_, left, right) => expr_plain(*left) && expr_plain(*right),
        Expression::Ternary(first, second, third) => expr_plain(*first) && expr_plain(*second)
            && expr_plain(*third),
        Expression::Star(inner) => expr_plain(*inner),
        Expression::Lambdef(params, body) => untyped_params_plain(params) && expr_plain(*body),
        _ => true,
    }
}

/// Whether no name in a list of expressions holds a line break.
pub open spec fn exprs_plain(es: Seq<Expression>) -> bool
    decreases es, 0nat,
{
    forall|i: int| 0 <= i < es.len() ==> expr_plain(#[trigger] es[i])
}

/// Whether no name in an expression that may be left out holds a line
/// break.
pub open spec fn opt_expr_plain(o: Option<Expression>) -> bool
    decreases o, 0nat,
{
    match o {
        Some(e) => expr_plain(e),
        None => true,
    }
}

/// Whether no name in an item of a dict literal holds a line break.
pub open spec fn dictitem_plain(item: DictItem) -> bool
    decreases item, 0nat,
{
    match item {
        DictItem::Unique(key, value) => expr_plain(key) && expr_plain(value),
        DictItem::Star(e) => expr_plain(e),
    }
}

/// Whether no name in the items of a dict literal holds a line break.
pub open spec fn dictitems_plain(items: Seq<DictItem>) -> bool
    decreases items, 0nat,
{
    forall|i: int| 0 <= i < items.len() ==> dictitem_plain(#[trigger] items[i])
}

/// Whether no name in an item of a set, list or tuple literal holds a line
/// break.
pub open spec fn setitem_plain(item: SetItem) -> bool
    decreases item, 0nat,
{
    match item {
        SetItem::Unique(e) => expr_plain(e),
        SetItem::Star(e) => expr_plain(e),
    }
}

/// Whether no name in the items of a set, list or tuple literal holds a
/// line break.
pub open spec fn setitems_plain(items: Seq<SetItem>) -> bool
    decreases items, 0nat,
{
    forall|i: int| 0 <= i < items.len() ==> setitem_plain(#[trigger] items[i])
}

/// Whether no name in a clause of a comprehension holds a line break.
pub open spec fn comp_plain(chunk: ComprehensionChunk) -> bool
    decreases chunk, 0nat,
{
    match chunk {
        ComprehensionChunk::If { cond } => expr_plain(cond),
        ComprehensionChunk::For { is_async, item, iterator } => exprs_plain(item@) && expr_plain(
            iterator,
        ),
    }
}

/// Whether no name in the clauses of a comprehension holds a line break.
pub open spec fn comps_plain(chunks: Seq<ComprehensionChunk>) -> bool
    decreases chunks, 0nat,
{
    forall|i: int| 0 <= i < chunks.len() ==> comp_plain(#[trigger] chunks[i])
}

/// Whether no name in an index or a slice holds a line break.
pub open spec fn subscript_plain(sub: Subscript) -> bool
    decreases sub, 0nat,
{
    match sub {
        Subscript::Simple(e) => expr_plain(e),
        Subscript::Double(lower, upper) => opt_expr_plain(lower) && opt_expr_plain(upper),
        Subscript::Triple(lower, upper, step) => opt_expr_plain(lower) && opt_expr_plain(upper)
            && opt_expr_plain(step),
    }
}

/// Whether no name in the indices and slices of a subscript holds a line
/// break.
pub open spec fn subscripts_plain(subs: Seq<Subscript>) -> bool
    decreases subs, 0nat,
{
    forall|i: int| 0 <= i < subs.len() ==> subscript_plain(#[trigger] subs[i])
}

/// Whether no name in a positional argument holds a line break.
pub open spec fn pos_arg_plain(arg: Argument<Expression>) -> bool
    decreases arg, 0nat,
{
    match arg {
        Argument::Normal(e) => expr_plain(e),
        Argument::Star(e) => expr_plain(e),
    }
}

/// Whether no name in the positional arguments of a call holds a line
/// break.
pub open spec fn pos_args_plain(args: Seq<Argument<Expression>>) -> bool
    decreases args, 0nat,
{
    forall|i: int| 0 <= i < args.len() ==> pos_arg_plain(#[trigger] args[i])
}

/// Whether neither the name of a keyword argument nor a name in its value
/// holds a line break.
pub open spec fn kw_arg_plain(arg: Argument<(Name, Expression)>) -> bool
    decreases arg, 0nat,
{
    match arg {
        Argument::Normal(pair) => unbroken(pair.0@) && expr_plain(pair.1),
        Argument::Star(e) => expr_plain(e),
    }
}

/// Whether no name in the keyword arguments of a call holds a line break.
pub open spec fn kw_args_plain(args: Seq<Argument<(Name, Expression)>>) -> bool
    decreases args, 0nat,
{
    forall|i: int| 0 <= i < args.len() ==> kw_arg_plain(#[trigger] args[i])
}

/// Whether no name in the arguments of a call holds a line break.
pub open spec fn args_plain(args: Arglist) -> bool
    decreases args, 1nat,
{
    pos_args_plain(args.positional_args@) && kw_args_plain(args.keyword_args@)
}

/// Whether neither the name of a parameter of a lambda nor a name in its
/// default holds a line break.
pub open spec fn untyped_param_plain(param: (Name, Option<Expression>)) -> bool
    decreases param, 0nat,
{
    unbroken(param.0@) && opt_expr_plain(param.1)
}

/// Whether no name in a list of parameters of a lambda holds a line break.
pub open spec fn untyped_params_list_plain(params: Seq<(Name, Option<Expression>)>) -> bool
    decreases params, 0nat,
{
    forall|i: int| 0 <= i < params.len() ==> untyped_param_plain(#[trigger] params[i])
}

/// Whether no name in the parameter list of a lambda holds a line break.
pub open spec fn untyped_params_plain(params: UntypedArgsList) -> bool
    decreases params, 1nat,
{
    &&& untyped_params_list_plain(params.positional_args@)
    &&& match params.star_args {
        StarParams::Named(name) => unbroken(name@),
        _ => true,
    }
    &&& untyped_params_list_plain(params.keyword_args@)
    &&& match params.star_kwargs {
        Some(name) => unbroken(name@),
        None => true,
    }
}

/// Whether neither the name of a parameter of a function definition nor a
/// name in its annotation or its default holds a line break.
pub open spec fn typed_param_plain(param: (Name, Option<Expression>, Option<Expression>)) -> bool {
    unbroken(param.0@) && opt_expr_plain(param.1) && opt_expr_plain(param.2)
}

/// Whether no name in a list of parameters of a function definition holds
/// a line break.
pub open spec fn typed_params_list_plain(
    params: Seq<(Name, Option<Expression>, Option<Expression>)>,
) -> bool {
    forall|i: int| 0 <= i < params.len() ==> typed_param_plain(#[trigger] params[i])
}

/// Whether no name in the parameter list of a function definition holds a
/// line break.
pub open spec fn typed_params_plain(params: TypedArgsList) -> bool {
    &&& typed_params_list_plain(params.positional_args@)
    &&& match params.star_args {
        StarParams::Named(named) => unbroken(named.0@) && opt_expr_plain(named.1),
        _ => true,
    }
    &&& typed_params_list_plain(params.keyword_args@)
    &&& match params.star_kwargs {
        Some(named) => unbroken(named.0@) && opt_expr_plain(named.1),
        None => true,
    }
}

/// No spelling of an operator holds a line break.
pub proof fn lemma_operators_unbroken(uop: Uop, bop: Bop, aug: AugAssignOp)
    ensures
        unbroken(uop_text(uop)),
        unbroken(bop_text(bop)),
        unbroken(aug_assign_text(aug)),
{
    reveal_strlit("+");
    reveal_strlit("-");
    reveal_strlit("~");
    reveal_strlit("not ");
    reveal_strlit("*");
    reveal_strlit("@");
    reveal_strlit("%");
    reveal_strlit("//");
    reveal_strlit("/");
    reveal_strlit("**");
    reveal_strlit("<<");
    reveal_strlit(">>");
    reveal_strlit("&");
    reveal_strlit("^");
    reveal_strlit("|");
    reveal_strlit("<");
    reveal_strlit(">");
    reveal_strlit("==");
    reveal_strlit("<=");
    reveal_strlit(">=");
    reveal_strlit("!=");
    reveal_strlit(" in ");
    reveal_strlit(" not in ");
    reveal_strlit(" is ");
    reveal_strlit(" is not ");
    reveal_strlit(" and ");
    reveal_strlit(" or ");
    reveal_strlit("+=");
    reveal_strlit("-=");
    reveal_strlit("*=");
    reveal_strlit("@=");
    reveal_strlit("/=");
    reveal_strlit("%=");
    reveal_strlit("&=");
    reveal_strlit("|=");
    reveal_strlit("^=");
    reveal_strlit("<<=");
    reveal_strlit(">>=");
    reveal_strlit("**=");
    reveal_strlit("//=");
}

/// No mark that the printer writes inside an expression holds a line
/// break.
proof fn lemma_marks_unbroken()
    ensures
        unbroken("..."@),
        unbroken("None"@),
        unbroken("True"@),
        unbroken("False"@),
        unbroken("{"@),
        unbroken("}"@),
        unbroken("["@),
        unbroken("]"@),
        unbroken("("@),
        unbroken(")"@),
        unbroken(", "@),
        unbroken(" "@),
        unbroken("."@),
        unbroken(") if ("@),
        unbroken(") else ("@),
        unbroken("*"@),
        unbroken("**"@),
        unbroken("lambda "@),
        unbroken(": "@),
        unbroken(":"@),
        unbroken("="@),
        unbroken("if "@),
        unbroken("async "@),
        unbroken(""@),
        unbroken("for "@),
        unbroken(" in "@),
{
    reveal_strlit("...");
    reveal_strlit("None");
    reveal_strlit("True");
    reveal_strlit("False");
    reveal_strlit("{");
    reveal_strlit("}");
    reveal_strlit("[");
    reveal_strlit("]");
    reveal_strlit("(");
    reveal_strlit(")");
    reveal_strlit(", ");
    reveal_strlit(" ");
    reveal_strlit(".");
    reveal_strlit(") if (");
    reveal_strlit(") else (");
    reveal_strlit("*");
    reveal_strlit("**");
    reveal_strlit("lambda ");
    reveal_strlit(": ");
    reveal_strlit(":");
    reveal_strlit("=");
    reveal_strlit("if ");
    reveal_strlit("async ");
    reveal_strlit("");
    reveal_strlit("for ");
    reveal_strlit(" in ");
}

/// Names that hold no line break, with a separator that holds none between
/// them, hold none.
pub proof fn lemma_names_unbroken(names: Seq<Name>, sep: Seq<char>)
    requires
        names_plain(names),
        unbroken(sep),
    ensures
        unbroken(joined(texts(names), sep)),
{
    assert(all_unbroken(texts(names))) by {
        assert forall|i: int| 0 <= i < texts(names).len() implies unbroken(
            #[trigger] texts(names)[i],
        ) by {
            assert(unbroken(names[i]@));
        }
    }
    lemma_joined_unbroken(texts(names), sep);
}

/// The text of an expression holds no line break where no name in the
/// expression holds one.
pub proof fn lemma_expr_unbroken(e: Expression)
    requires
        expr_plain(e),
    ensures
        unbroken(expr_text(e)),
        unbroken(operand_text(e)),
    decreases e, 0nat,
{
    lemma_marks_unbroken();
    match e {
        Expression::Int(i) => {
            lemma_int_text_unbroken(i as int);
        },
        Expression::String(s) => {
            lemma_quoted_unbroken(s@);
        },
        Expression::DictLiteral(items) => {
            lemma_dictitems_unbroken(items@);
        },
        Expression::SetLiteral(items) => {
            lemma_setitems_unbroken(items@);
        },
        Expression::ListLiteral(items) => {
            lemma_setitems_unbroken(items@);
        },
        Expression::TupleLiteral(items) => {
            lemma_setitems_unbroken(items@);
        },
        Expression::DictComp(item, chunks) => {
            lemma_dictitem_unbroken(*item);
            lemma_comps_unbroken(chunks@);
        },
        Expression::SetComp(item, chunks) => {
            lemma_setitem_unbroken(*item);
            lemma_comps_unbroken(chunks@);
        },
        Expression::ListComp(item, chunks) => {
            lemma_setitem_unbroken(*item);
            lemma_comps_unbroken(chunks@);
        },
        Expression::Generator(item, chunks) => {
            lemma_setitem_unbroken(*item);
            lemma_comps_unbroken(chunks@);
        },
        Expression::Call(callee, args) => {
            lemma_expr_unbroken(*callee);
            lemma_args_unbroken(args);
        },
        Expression::Subscript(base, subs) => {
            lemma_expr_unbroken(*base);
            lemma_subscripts_unbroken(subs@);
        },
        Expression::Attribute(base, n) => {
            lemma_expr_unbroken(*base);
        },
        Expression::Uop(op, operand) => {
            lemma_expr_unbroken(*operand);
            lemma_operators_unbroken(op, Bop::Add, AugAssignOp::Add);
        },
        Expression::Bop(op, left, right) => {
            lemma_expr_unbroken(*left);
            lemma_expr_unbroken(*right);
            lemma_operators_unbroken(Uop::Plus, op, AugAssignOp::Add);
        },
        Expression::Ternary(first, second, third) => {
            lemma_expr_unbroken(*first);
            lemma_expr_unbroken(*second);
            lemma_expr_unbroken(*third);
        },
        Expression::Star(inner) => {
            lemma_expr_unbroken(*inner);
        },
        Expression::Lambdef(params, body) => {
            lemma_untyped_params_unbroken(params);
            lemma_expr_unbroken(*body);
        },
        _ => {},
    }
}

/// The texts of the expressions of a list, and the list with commas, hold
/// no line break where no name in them holds one.
pub proof fn lemma_exprs_unbroken(es: Seq<Expression>)
    requires
        exprs_plain(es),
    ensures
        all_unbroken(expr_texts(es)),
        unbroken(joined(expr_texts(es), ", "@)),
    decreases es, 0nat,
{
    lemma_marks_unbroken();
    assert forall|i: int| 0 <= i < es.len() implies unbroken(#[trigger] expr_texts(es)[i]) by {
        lemma_expr_unbroken(es[i]);
    }
    lemma_joined_unbroken(expr_texts(es), ", "@);
}

/// The text of an expression that may be left out holds no line break
/// where no name in it holds one.
pub proof fn lemma_opt_expr_unbroken(o: Option<Expression>)
    requires
        opt_expr_plain(o),
    ensures
        unbroken(opt_expr_text(o)),
        unbroken(default_text(o)),
        unbroken(annotation_text(o)),
    decreases o, 0nat,
{
    lemma_marks_unbroken();
    match o {
        Some(e) => {
            lemma_expr_unbroken(e);
        },
        None => {},
    }
}

proof fn lemma_dictitem_unbroken(item: DictItem)
    requires
        dictitem_plain(item),
    ensures
        unbroken(dictitem_text(item)),
    decreases item, 0nat,
{
    lemma_marks_unbroken();
    match item {
        DictItem::Unique(key, value) => {
            lemma_expr_unbroken(key);
            lemma_expr_unbroken(value);
        },
        DictItem::Star(e) => {
            lemma_expr_unbroken(e);
        },
    }
}

proof fn lemma_dictitems_unbroken(items: Seq<DictItem>)
    requires
        dictitems_plain(items),
    ensures
        unbroken(joined(dictitem_texts(items), ", "@)),
    decreases items, 0nat,
{
    lemma_marks_unbroken();
    assert forall|i: int| 0 <= i < items.len() implies unbroken(
        #[trigger] dictitem_texts(items)[i],
    ) by {
        lemma_dictitem_unbroken(items[i]);
    }
    lemma_joined_unbroken(dictitem_texts(items), ", "@);
}

proof fn lemma_setitem_unbroken(item: SetItem)
    requires
        setitem_plain(item),
    ensures
        unbroken(setitem_text(item)),
    decreases item, 0nat,
{
    lemma_marks_unbroken();
    match item {
        SetItem::Unique(e) => {
            lemma_expr_unbroken(e);
        },
        SetItem::Star(e) => {
            lemma_expr_unbroken(e);
        },
    }
}

proof fn lemma_setitems_unbroken(items: Seq<SetItem>)
    requires
        setitems_plain(items),
    ensures
        unbroken(joined(setitem_texts(items), ", "@)),
    decreases items, 0nat,
{
    lemma_marks_unbroken();
    assert forall|i: int| 0 <= i < items.len() implies unbroken(
        #[trigger] setitem_texts(items)[i],
    ) by {
        lemma_setitem_unbroken(items[i]);
    }
    lemma_joined_unbroken(setitem_texts(items), ", "@);
}

proof fn lemma_comp_unbroken(chunk: ComprehensionChunk)
    requires
        comp_plain(chunk),
    ensures
        unbroken(comp_text(chunk)),
    decreases chunk, 0nat,
{
    lemma_marks_unbroken();
    match chunk {
        ComprehensionChunk::If { cond } => {
            lemma_expr_unbroken(cond);
        },
        ComprehensionChunk::For { is_async, item, iterator } => {
            lemma_exprs_unbroken(item@);
            lemma_expr_unbroken(iterator);
        },
    }
}

proof fn lemma_comps_unbroken(chunks: Seq<ComprehensionChunk>)
    requires
        comps_plain(chunks),
    ensures
        unbroken(joined(comp_texts(chunks), " "@)),
    decreases chunks, 0nat,
{
    lemma_marks_unbroken();
    assert forall|i: int| 0 <= i < chunks.len() implies unbroken(
        #[trigger] comp_texts(chunks)[i],
    ) by {
        lemma_comp_unbroken(chunks[i]);
    }
    lemma_joined_unbroken(comp_texts(chunks), " "@);
}

proof fn lemma_subscript_unbroken(sub: Subscript)
    requires
        subscript_plain(sub),
    ensures
        unbroken(subscript_text(sub)),
    decreases sub, 0nat,
{
    lemma_marks_unbroken();
    match sub {
        Subscript::Simple(e) => {
            lemma_expr_unbroken(e);
        },
        Subscript::Double(lower, upper) => {
            lemma_opt_expr_unbroken(lower);
            lemma_opt_expr_unbroken(upper);
        },
        Subscript::Triple(lower, upper, step) => {
            lemma_opt_expr_unbroken(lower);
            lemma_opt_expr_unbroken(upper);
            lemma_opt_expr_unbroken(step);
        },
    }
}

proof fn lemma_subscripts_unbroken(subs: Seq<Subscript>)
    requires
        subscripts_plain(subs),
    ensures
        unbroken(joined(subscript_texts(subs), ", "@)),
    decreases subs, 0nat,
{
    lemma_marks_unbroken();
    assert forall|i: int| 0 <= i < subs.len() implies unbroken(
        #[trigger] subscript_texts(subs)[i],
    ) by {
        lemma_subscript_unbroken(subs[i]);
    }
    lemma_joined_unbroken(subscript_texts(subs), ", "@);
}

proof fn lemma_pos_args_unbroken(args: Seq<Argument<Expression>>)
    requires
        pos_args_plain(args),
    ensures
        unbroken(joined(pos_arg_texts(args), ", "@)),
    decreases args, 0nat,
{
    lemma_marks_unbroken();
    assert forall|i: int| 0 <= i < args.len() implies unbroken(
        #[trigger] pos_arg_texts(args)[i],
    ) by {
        match args[i] {
            Argument::Normal(e) => {
                lemma_expr_unbroken(e);
            },
            Argument::Star(e) => {
                lemma_expr_unbroken(e);
            },
        }
    }
    lemma_joined_unbroken(pos_arg_texts(args), ", "@);
}

proof fn lemma_kw_args_unbroken(args: Seq<Argument<(Name, Expression)>>)
    requires
        kw_args_plain(args),
    ensures
        unbroken(joined(kw_arg_texts(args), ", "@)),
    decreases args, 0nat,
{
    lemma_marks_unbroken();
    assert forall|i: int| 0 <= i < args.len() implies unbroken(
        #[trigger] kw_arg_texts(args)[i],
    ) by {
        match args[i] {
            Argument::Normal(pair) => {
                lemma_expr_unbroken(pair.1);
            },
            Argument::Star(e) => {
                lemma_expr_unbroken(e);
            },
        }
    }
    lemma_joined_unbroken(kw_arg_texts(args), ", "@);
}

/// The text of the arguments of a call holds no line break where no name
/// in them holds one.
pub proof fn lemma_args_unbroken(args: Arglist)
    requires
        args_plain(args),
    ensures
        unbroken(args_text(args)),
    decreases args, 1nat,
{
    lemma_marks_unbroken();
    lemma_pos_args_unbroken(args.positional_args@);
    lemma_kw_args_unbroken(args.keyword_args@);
    lemma_joined_unbroken(args_groups(args), ", "@);
}

proof fn lemma_untyped_param_list_unbroken(params: Seq<(Name, Option<Expression>)>)
    requires
        untyped_params_list_plain(params),
    ensures
        unbroken(joined(untyped_param_texts(params), ", "@)),
    decreases params, 0nat,
{
    lemma_marks_unbroken();
    assert forall|i: int| 0 <= i < params.len() implies unbroken(
        #[trigger] untyped_param_texts(params)[i],
    ) by {
        assert(untyped_param_plain(params[i]));
        lemma_opt_expr_unbroken(params[i].1);
    }
    lemma_joined_unbroken(untyped_param_texts(params), ", "@);
}

proof fn lemma_untyped_params_unbroken(params: UntypedArgsList)
    requires
        untyped_params_plain(params),
    ensures
        unbroken(untyped_params_text(params)),
    decreases params, 1nat,
{
    lemma_marks_unbroken();
    lemma_untyped_param_list_unbroken(params.positional_args@);
    lemma_untyped_param_list_unbroken(params.keyword_args@);
    lemma_joined_unbroken(untyped_params_groups(params), ", "@);
}

proof fn lemma_typed_param_list_unbroken(
    params: Seq<(Name, Option<Expression>, Option<Expression>)>,
)
    requires
        typed_params_list_plain(params),
    ensures
        unbroken(joined(typed_param_texts(params), ", "@)),
{
    lemma_marks_unbroken();
    assert forall|i: int| 0 <= i < params.len() implies unbroken(
        #[trigger] typed_param_texts(params)[i],
    ) by {
        assert(typed_param_plain(params[i]));
        lemma_opt_expr_unbroken(params[i].1);
        lemma_opt_expr_unbroken(params[i].2);
    }
    lemma_joined_unbroken(typed_param_texts(params), ", "@);
}

/// The text of the parameter list of a function definition holds no line
/// break where no name in it holds one.
pub proof fn lemma_typed_params_unbroken(params: TypedArgsList)
    requires
        typed_params_plain(params),
    ensures
        unbroken(typed_params_text(params)),
{
    lemma_marks_unbroken();
    lemma_typed_param_list_unbroken(params.positional_args@);
    lemma_typed_param_list_unbroken(params.keyword_args@);
    match params.star_args {
        StarParams::Named(named) => {
            lemma_opt_expr_unbroken(named.1);
        },
        _ => {},
    }
    match params.star_kwargs {
        Some(named) => {
            lemma_opt_expr_unbroken(named.1);
        },
        None => {},
    }
    lemma_joined_unbroken(typed_params_groups(params), ", "@);
}

/// A dotted name holds no line break where none of its parts holds one.
pub proof fn lemma_dotted_name_unbroken(path: Seq<Name>)
    requires
        names_plain(path),
    ensures
        unbroken(dotted_name_text(path)),
{
    lemma_marks_unbroken();
    lemma_names_unbroken(path, "."@);
}

/// Whether an alias holds no line break.
pub open spec fn alias_plain(alias: Option<Name>) -> bool {
    match alias {
        Some(name) => unbroken(name@),
        None => true,
    }
}

/// Whether no name in an import holds a line break.
pub open spec fn import_plain(imp: Import) -> bool {
    match imp {
        Import::ImportFrom { leading_dots, path, names } => names_plain(path@) && forall|i: int|
            0 <= i < names@.len() ==> unbroken((#[trigger] names@[i]).0@) && alias_plain(
                names@[i].1,
            ),
        Import::Import { names } => forall|i: int|
            0 <= i < names@.len() ==> names_plain((#[trigger] names@[i]).0@) && alias_plain(
                names@[i].1,
            ),
    }
}

/// Whether no name in a simple statement holds a line break. Of a compound
/// statement it says nothing.
pub open spec fn simple_stmt_plain(s: Statement) -> bool {
    match s {
        Statement::Del(names) => names_plain(names@),
        Statement::Return(es) => exprs_plain(es@),
        Statement::RaiseExcFrom(exc, cause) => expr_plain(exc) && expr_plain(cause),
        Statement::RaiseExc(exc) => expr_plain(exc),
        Statement::Global(names) => names_plain(names@),
        Statement::Nonlocal(names) => names_plain(names@),
        Statement::Assert(cond, message) => expr_plain(cond) && opt_expr_plain(message),
        Statement::Import(imp) => import_plain(imp),
        Statement::Expressions(es) => exprs_plain(es@),
        Statement::Assignment(lhs, rhs) => exprs_plain(lhs@) && forall|i: int|
            0 <= i < rhs@.len() ==> exprs_plain(#[trigger] rhs@[i]@),
        Statement::TypedAssignment(lhs, typed, rhs) => exprs_plain(lhs@) && expr_plain(typed)
            && exprs_plain(rhs@),
        Statement::AugmentedAssignment(lhs, _, rhs) => exprs_plain(lhs@) && exprs_plain(rhs@),
        _ => true,
    }
}

/// Whether no name in a statement holds a line break.
pub open spec fn stmt_plain(s: Statement) -> bool
    decreases s, 0nat,
{
    match s {
        Statement::Compound(c) => compound_plain(*c),
        _ => simple_stmt_plain(s),
    }
}

/// Whether no name in a block holds a line break.
pub open spec fn block_plain(stmts: Seq<Statement>) -> bool
    decreases stmts, 0nat,
{
    forall|i: int| 0 <= i < stmts.len() ==> stmt_plain(#[trigger] stmts[i])
}

/// Whether no name in an `else` part holds a line break.
pub open spec fn else_plain(else_block: Option<Vec<Statement>>) -> bool
    decreases else_block, 0nat,
{
    match else_block {
        Some(block) => block_plain(block@),
        None => true,
    }
}

/// Whether no name in a decorator holds a line break.
pub open spec fn decorator_plain(d: Decorator) -> bool {
    names_plain(d.name@) && match d.args {
        Some(args) => args_plain(args),
        None => true,
    }
}

/// Whether no name in what a `with` statement enters holds a line break.
pub open spec fn contexts_plain(contexts: Seq<(Expression, Option<Expression>)>) -> bool {
    forall|i: int|
        0 <= i < contexts.len() ==> expr_plain((#[trigger] contexts[i]).0) && opt_expr_plain(
            contexts[i].1,
        )
}

/// Whether no name in a function definition holds a line break.
pub open spec fn funcdef_plain(f: Funcdef) -> bool
    decreases f, 0nat,
{
    &&& forall|i: int| 0 <= i < f.decorators@.len() ==> decorator_plain(#[trigger] f.decorators@[i])
    &&& unbroken(f.name@)
    &&& typed_params_plain(f.parameters)
    &&& opt_expr_plain(f.return_type)
    &&& block_plain(f.code@)
}

/// Whether no name in a `try` statement holds a line break.
pub open spec fn try_plain(t: Try) -> bool
    decreases t, 0nat,
{
    &&& block_plain(t.try_block@)
    &&& forall|i: int|
        0 <= i < t.except_clauses@.len() ==> {
            &&& expr_plain((#[trigger] t.except_clauses@[i]).0)
            &&& alias_plain(t.except_clauses@[i].1)
            &&& block_plain(t.except_clauses@[i].2@)
        }
    &&& block_plain(t.last_except@)
    &&& block_plain(t.else_block@)
    &&& block_plain(t.finally_block@)
}

/// Whether no name in a compound statement holds a line break.
pub open spec fn compound_plain(c: CompoundStatement) -> bool
    decreases c, 0nat,
{
    match c {
        CompoundStatement::If(branches, else_block) => {
            &&& forall|i: int|
                0 <= i < branches@.len() ==> expr_plain((#[trigger] branches@[i]).0)
                    && block_plain(branches@[i].1@)
            &&& else_plain(else_block)
        },
        CompoundStatement::For { is_async, item, iterator, for_block, else_block } => {
            &&& exprs_plain(item@)
            &&& exprs_plain(iterator@)
            &&& block_plain(for_block@)
            &&& else_plain(else_block)
        },
        CompoundStatement::While(cond, block, else_block) => expr_plain(cond) && block_plain(
            block@,
        ) && else_plain(else_block),
        CompoundStatement::With(contexts, block) => contexts_plain(contexts@) && block_plain(
            block@,
        ),
        CompoundStatement::Funcdef(f) => funcdef_plain(f),
        CompoundStatement::Classdef(_) => true,
        CompoundStatement::Try(t) => try_plain(t),
    }
}

/// No word that the printer writes inside the line of a statement holds a
/// line break.
proof fn lemma_words_unbroken()
    ensures
        unbroken("pass"@),
        unbroken("del "@),
        unbroken("break"@),
        unbroken("continue"@),
        unbroken("return "@),
        unbroken("raise "@),
        unbroken(" from "@),
        unbroken("raise"@),
        unbroken("global "@),
        unbroken("nonlocal "@),
        unbroken("assert "@),
        unbroken(" = "@),
        unbroken("from "@),
        unbroken(" import "@),
        unbroken("import "@),
        unbroken(" as "@),
        unbroken("elif "@),
        unbroken("else:"@),
        unbroken("try:"@),
        unbroken("except:"@),
        unbroken("finally:"@),
        unbroken("except "@),
        unbroken("while "@),
        unbroken("with "@),
        unbroken("@"@),
        unbroken("def "@),
        unbroken(" -> "@),
{
    reveal_strlit("pass");
    reveal_strlit("del ");
    reveal_strlit("break");
    reveal_strlit("continue");
    reveal_strlit("return ");
    reveal_strlit("raise ");
    reveal_strlit(" from ");
    reveal_strlit("raise");
    reveal_strlit("global ");
    reveal_strlit("nonlocal ");
    reveal_strlit("assert ");
    reveal_strlit(" = ");
    reveal_strlit("from ");
    reveal_strlit(" import ");
    reveal_strlit("import ");
    reveal_strlit(" as ");
    reveal_strlit("elif ");
    reveal_strlit("else:");
    reveal_strlit("try:");
    reveal_strlit("except:");
    reveal_strlit("finally:");
    reveal_strlit("except ");
    reveal_strlit("while ");
    reveal_strlit("with ");
    reveal_strlit("@");
    reveal_strlit("def ");
    reveal_strlit(" -> ");
}

/// The text of an import holds no line break where no name in it holds
/// one.
pub proof fn lemma_import_unbroken(imp: Import)
    requires
        import_plain(imp),
    ensures
        unbroken(import_text(imp)),
{
    lemma_marks_unbroken();
    lemma_words_unbroken();
    match imp {
        Import::ImportFrom { leading_dots, path, names } => {
            lemma_dotted_name_unbroken(path@);
            let parts = imported_name_texts(names@);
            assert forall|i: int| 0 <= i < parts.len() implies unbroken(#[trigger] parts[i]) by {
                assert(unbroken(names@[i].0@) && alias_plain(names@[i].1));
            }
            lemma_joined_unbroken(parts, ", "@);
            assert(unbroken(dots(leading_dots as nat)));
        },
        Import::Import { names } => {
            let parts = imported_module_texts(names@);
            assert forall|i: int| 0 <= i < parts.len() implies unbroken(#[trigger] parts[i]) by {
                assert(names_plain(names@[i].0@) && alias_plain(names@[i].1));
                lemma_dotted_name_unbroken(names@[i].0@);
            }
            lemma_joined_unbroken(parts, ", "@);
        },
    }
}

/// The line of a simple statement holds no line break where no name in
/// the statement holds one.
pub proof fn lemma_simple_stmt_unbroken(s: Statement)
    requires
        simple_stmt_plain(s),
    ensures
        unbroken(simple_stmt_text(s)),
{
    lemma_marks_unbroken();
    lemma_words_unbroken();
    match s {
        Statement::Del(names) => {
            lemma_names_unbroken(names@, ", "@);
        },
        Statement::Return(es) => {
            lemma_exprs_unbroken(es@);
        },
        Statement::RaiseExcFrom(exc, cause) => {
            lemma_expr_unbroken(exc);
            lemma_expr_unbroken(cause);
        },
        Statement::RaiseExc(exc) => {
            lemma_expr_unbroken(exc);
        },
        Statement::Global(names) => {
            lemma_names_unbroken(names@, ", "@);
        },
        Statement::Nonlocal(names) => {
            lemma_names_unbroken(names@, ", "@);
        },
        Statement::Assert(cond, message) => {
            lemma_expr_unbroken(cond);
            lemma_opt_expr_unbroken(message);
        },
        Statement::Import(imp) => {
            lemma_import_unbroken(imp);
        },
        Statement::Expressions(es) => {
            lemma_exprs_unbroken(es@);
        },
        Statement::Assignment(lhs, rhs) => {
            lemma_exprs_unbroken(lhs@);
            let parts = assigned_texts(rhs@);
            assert forall|i: int| 0 <= i < parts.len() implies unbroken(#[trigger] parts[i]) by {
                lemma_exprs_unbroken(rhs@[i]@);
            }
            lemma_concat_unbroken(parts);
        },
        Statement::TypedAssignment(lhs, typed, rhs) => {
            lemma_exprs_unbroken(lhs@);
            lemma_expr_unbroken(typed);
            lemma_exprs_unbroken(rhs@);
        },
        Statement::AugmentedAssignment(lhs, op, rhs) => {
            lemma_exprs_unbroken(lhs@);
            lemma_exprs_unbroken(rhs@);
            lemma_operators_unbroken(Uop::Plus, Bop::Add, op);
        },
        _ => {},
    }
}

/// The line of a decorator holds no line break where no name in the
/// decorator holds one.
proof fn lemma_decorator_unbroken(d: Decorator)
    requires
        decorator_plain(d),
    ensures
        unbroken(decorator_line_text(d)),
{
    lemma_marks_unbroken();
    lemma_words_unbroken();
    lemma_dotted_name_unbroken(d.name@);
    match d.args {
        Some(args) => {
            lemma_args_unbroken(args);
        },
        None => {},
    }
}

/// The line that opens a function definition holds no line break where no
/// name in it holds one.
proof fn lemma_def_line_unbroken(f: Funcdef)
    requires
        unbroken(f.name@),
        typed_params_plain(f.parameters),
        opt_expr_plain(f.return_type),
    ensures
        unbroken(def_line_text(f)),
{
    lemma_marks_unbroken();
    lemma_words_unbroken();
    lemma_typed_params_unbroken(f.parameters);
    match f.return_type {
        Some(ret) => {
            lemma_expr_unbroken(ret);
        },
        None => {},
    }
}

/// The line that opens a `with` statement holds no line break where no
/// name in it holds one.
proof fn lemma_with_line_unbroken(contexts: Seq<(Expression, Option<Expression>)>)
    requires
        contexts_plain(contexts),
    ensures
        unbroken(with_line_text(contexts)),
{
    lemma_marks_unbroken();
    lemma_words_unbroken();
    let parts = context_texts(contexts);
    assert forall|i: int| 0 <= i < parts.len() implies unbroken(#[trigger] parts[i]) by {
        assert(expr_plain(contexts[i].0) && opt_expr_plain(contexts[i].1));
        lemma_expr_unbroken(contexts[i].0);
        match contexts[i].1 {
            Some(target) => {
                lemma_expr_unbroken(target);
            },
            None => {},
        }
    }
    lemma_joined_unbroken(parts, ", "@);
}

/// Lines that hold no line break, one list after another, hold none.
proof fn lemma_lines_unbroken_add(a: Seq<Line>, b: Seq<Line>)
    requires
        lines_unbroken(a),
        lines_unbroken(b),
    ensures
        lines_unbroken(a + b),
{
    let all = a + b;
    assert forall|i: int| 0 <= i < all.len() && (#[trigger] all[i]) is Text implies unbroken(
        all[i]->content,
    ) by {
        if i < a.len() {
            assert(all[i] == a[i]);
        } else {
            assert(all[i] == b[i - a.len()]);
        }
    }
}

/// Lines, then a line that opens a block and the lines of the block one
/// level deeper, hold no line break where none of them holds one.
proof fn lemma_opened_unbroken(before: Seq<Line>, opening: Seq<char>, body: Seq<Line>)
    requires
        lines_unbroken(before),
        unbroken(opening),
        lines_unbroken(body),
    ensures
        lines_unbroken(before + header(opening) + nested(body)),
        lines_unbroken(header(opening) + nested(body)),
{
    assert(lines_unbroken(nested(body))) by {
        assert forall|i: int|
            0 <= i < nested(body).len() && (#[trigger] nested(body)[i]) is Text implies unbroken(
            nested(body)[i]->content,
        ) by {
            assert(body[i] is Text);
        }
    }
    lemma_lines_unbroken_add(before, header(opening));
    lemma_lines_unbroken_add(before + header(opening), nested(body));
    lemma_lines_unbroken_add(header(opening), nested(body));
}

/// No line of a statement holds a line break where no name in the
/// statement holds one.
pub proof fn lemma_stmt_lines_unbroken(s: Statement)
    requires
        stmt_plain(s),
    ensures
        lines_unbroken(stmt_lines(s)),
    decreases s, 0nat,
{
    match s {
        Statement::Compound(c) => {
            lemma_compound_lines_unbroken(*c);
        },
        _ => {
            lemma_simple_stmt_unbroken(s);
        },
    }
}

/// No line of the first `n` statements of a block holds a line break where
/// no name in the block holds one.
proof fn lemma_block_lines_unbroken_first(stmts: Seq<Statement>, n: nat)
    requires
        block_plain(stmts),
        n <= stmts.len(),
    ensures
        lines_unbroken(block_lines_first(stmts, n)),
    decreases stmts, n,
{
    if n > 0 {
        lemma_block_lines_unbroken_first(stmts, (n - 1) as nat);
        lemma_stmt_lines_unbroken(stmts[n - 1]);
        lemma_lines_unbroken_add(
            block_lines_first(stmts, (n - 1) as nat),
            stmt_lines(stmts[n - 1]),
        );
    }
}

/// No line of a block holds a line break where no name in the block holds
/// one.
pub proof fn lemma_block_lines_unbroken(stmts: Seq<Statement>)
    requires
        block_plain(stmts),
    ensures
        lines_unbroken(block_lines(stmts)),
    decreases stmts, stmts.len() + 1,
{
    lemma_block_lines_unbroken_first(stmts, stmts.len());
}

/// No line of the first `n` branches of an `if` statement holds a line
/// break where no name in them holds one.
proof fn lemma_branch_lines_unbroken(branches: Seq<(Expression, Vec<Statement>)>, n: nat)
    requires
        n <= branches.len(),
        forall|i: int|
            0 <= i < branches.len() ==> expr_plain((#[trigger] branches[i]).0) && block_plain(
                branches[i].1@,
            ),
    ensures
        lines_unbroken(branch_lines_first(branches, n)),
    decreases branches, n,
{
    if n > 0 {
        lemma_marks_unbroken();
        lemma_words_unbroken();
        lemma_branch_lines_unbroken(branches, (n - 1) as nat);
        assert(expr_plain(branches[n - 1].0) && block_plain(branches[n - 1].1@));
        lemma_expr_unbroken(branches[n - 1].0);
        lemma_block_lines_unbroken(branches[n - 1].1@);
        lemma_opened_unbroken(
            branch_lines_first(branches, (n - 1) as nat),
            branch_line_text(n == 1, branches[n - 1].0),
            block_lines(branches[n - 1].1@),
        );
    }
}

/// No line of an `else` part holds a line break where no name in it holds
/// one.
proof fn lemma_else_lines_unbroken(else_block: Option<Vec<Statement>>)
    requires
        else_plain(else_block),
    ensures
        lines_unbroken(else_lines(else_block)),
    decreases else_block, 0nat,
{
    match else_block {
        Some(block) => {
            lemma_words_unbroken();
            lemma_block_lines_unbroken(block@);
            lemma_opened_unbroken(Seq::empty(), "else:"@, block_lines(block@));
        },
        None => {},
    }
}

/// No line of a section of a `try` statement holds a line break where
/// neither the line that opens it nor a name in its block holds one.
proof fn lemma_section_lines_unbroken(opening: Seq<char>, block: Seq<Statement>)
    requires
        unbroken(opening),
        block_plain(block),
    ensures
        lines_unbroken(section_lines(opening, block)),
    decreases block, block.len() + 3,
{
    lemma_block_lines_unbroken(block);
    lemma_opened_unbroken(Seq::empty(), opening, block_lines(block));
}

/// No line of the first `n` `except` clauses holds a line break where no
/// name in them holds one.
proof fn lemma_except_lines_unbroken(
    clauses: Seq<(Expression, Option<Name>, Vec<Statement>)>,
    n: nat,
)
    requires
        n <= clauses.len(),
        forall|i: int|
            0 <= i < clauses.len() ==> {
                &&& expr_plain((#[trigger] clauses[i]).0)
                &&& alias_plain(clauses[i].1)
                &&& block_plain(clauses[i].2@)
            },
    ensures
        lines_unbroken(except_lines_first(clauses, n)),
    decreases clauses, n,
{
    if n > 0 {
        lemma_marks_unbroken();
        lemma_words_unbroken();
        lemma_except_lines_unbroken(clauses, (n - 1) as nat);
        assert(expr_plain(clauses[n - 1].0) && alias_plain(clauses[n - 1].1) && block_plain(
            clauses[n - 1].2@,
        ));
        lemma_expr_unbroken(clauses[n - 1].0);
        lemma_block_lines_unbroken(clauses[n - 1].2@);
        lemma_opened_unbroken(
            except_lines_first(clauses, (n - 1) as nat),
            except_line_text(clauses[n - 1].0, clauses[n - 1].1),
            block_lines(clauses[n - 1].2@),
        );
    }
}

/// No line of a `try` statement holds a line break where no name in it
/// holds one.
proof fn lemma_try_lines_unbroken(t: Try)
    requires
        try_plain(t),
    ensures
        lines_unbroken(try_lines(t)),
    decreases t, 0nat,
{
    lemma_words_unbroken();
    let l12 = header("try:"@) + nested(block_lines(t.try_block@));
    let l3 = except_lines_first(t.except_clauses@, t.except_clauses@.len());
    let l4 = section_lines("except:"@, t.last_except@);
    let l5 = section_lines("else:"@, t.else_block@);
    let l6 = section_lines("finally:"@, t.finally_block@);
    lemma_block_lines_unbroken(t.try_block@);
    lemma_opened_unbroken(Seq::empty(), "try:"@, block_lines(t.try_block@));
    lemma_except_lines_unbroken(t.except_clauses@, t.except_clauses@.len());
    lemma_section_lines_unbroken("except:"@, t.last_except@);
    lemma_section_lines_unbroken("else:"@, t.else_block@);
    lemma_section_lines_unbroken("finally:"@, t.finally_block@);
    lemma_lines_unbroken_add(l12, l3);
    lemma_lines_unbroken_add(l12 + l3, l4);
    lemma_lines_unbroken_add(l12 + l3 + l4, l5);
    lemma_lines_unbroken_add(l12 + l3 + l4 + l5, l6);
}

/// No line of a function definition holds a line break where no name in it
/// holds one.
proof fn lemma_funcdef_lines_unbroken(f: Funcdef)
    requires
        funcdef_plain(f),
    ensures
        lines_unbroken(funcdef_lines(f)),
    decreases f, 0nat,
{
    let l1 = header(Seq::empty());
    let l2 = decorator_lines(f.decorators@);
    let l34 = header(def_line_text(f)) + nested(block_lines(f.code@));
    let l5 = seq![Line::Empty];
    assert(lines_unbroken(l2)) by {
        assert forall|i: int| 0 <= i < l2.len() && (#[trigger] l2[i]) is Text implies unbroken(
            l2[i]->content,
        ) by {
            lemma_decorator_unbroken(f.decorators@[i]);
        }
    }
    lemma_def_line_unbroken(f);
    lemma_block_lines_unbroken(f.code@);
    lemma_lines_unbroken_add(l1, l2);
    lemma_opened_unbroken(l1 + l2, def_line_text(f), block_lines(f.code@));
    lemma_lines_unbroken_add(
        l1 + l2 + header(def_line_text(f)) + nested(block_lines(f.code@)),
        l5,
    );
}

/// No line of a compound statement holds a line break where no name in the
/// statement holds one.
proof fn lemma_compound_lines_unbroken(c: CompoundStatement)
    requires
        compound_plain(c),
    ensures
        lines_unbroken(compound_lines(c)),
    decreases c, 0nat,
{
    lemma_marks_unbroken();
    lemma_words_unbroken();
    match c {
        CompoundStatement::If(branches, else_block) => {
            lemma_branch_lines_unbroken(branches@, branches@.len());
            lemma_else_lines_unbroken(else_block);
            lemma_lines_unbroken_add(
                branch_lines_first(branches@, branches@.len()),
                else_lines(else_block),
            );
        },
        CompoundStatement::For { is_async, item, iterator, for_block, else_block } => {
            let line = for_line_text(is_async, item@, iterator@);
            lemma_exprs_unbroken(item@);
            lemma_exprs_unbroken(iterator@);
            lemma_block_lines_unbroken(for_block@);
            lemma_opened_unbroken(Seq::empty(), line, block_lines(for_block@));
            lemma_else_lines_unbroken(else_block);
            lemma_lines_unbroken_add(
                header(line) + nested(block_lines(for_block@)),
                else_lines(else_block),
            );
        },
        CompoundStatement::While(cond, block, else_block) => {
            let line = while_line_text(cond);
            lemma_expr_unbroken(cond);
            lemma_block_lines_unbroken(block@);
            lemma_opened_unbroken(Seq::empty(), line, block_lines(block@));
            lemma_else_lines_unbroken(else_block);
            lemma_lines_unbroken_add(
                header(line) + nested(block_lines(block@)),
                else_lines(else_block),
            );
        },
        CompoundStatement::With(contexts, block) => {
            lemma_with_line_unbroken(contexts@);
            lemma_block_lines_unbroken(block@);
            lemma_opened_unbroken(Seq::empty(), with_line_text(contexts@), block_lines(block@));
        },
        CompoundStatement::Funcdef(f) => {
            lemma_funcdef_lines_unbroken(f);
        },
        CompoundStatement::Classdef(_) => {},
        CompoundStatement::Try(t) => {
            lemma_try_lines_unbroken(t);
        },
    }
}

/// The text of a block, cut at its line breaks, is the lines of the block:
/// each line of the text is the indentation of the block, four more spaces
/// for each block that the line is nested in below it, and what the line
/// holds. The one exception is the empty line that ends a function
/// definition, which is empty. This holds of every block in which no name
/// holds a line break, every `if` statement has a branch and no class is
/// defined.
pub proof fn lemma_block_text_split(indent: nat, stmts: Seq<Statement>)
    requires
        block_shaped(stmts, true),
        block_plain(stmts),
    ensures
        split_lines(block_text(indent, stmts)) == Seq::new(
            block_lines(stmts).len(),
            |i: int| line_shown(indent, block_lines(stmts)[i]),
        ),
{
    lemma_block_layout(indent, stmts);
    lemma_block_lines_unbroken(stmts);
    lemma_lines_split(indent, block_lines(stmts));
}

/// In a block that holds no function definition, every line of the text,
/// as the text is cut at its line breaks, is indented by exactly the
/// indentation of the block and four more spaces for each block that the
/// line is nested in below it.
pub proof fn lemma_block_text_lines(indent: nat, stmts: Seq<Statement>)
    requires
        block_shaped(stmts, false),
        block_plain(stmts),
    ensures
        split_lines(block_text(indent, stmts)).len() == block_lines(stmts).len(),
        forall|i: int|
            0 <= i < block_lines(stmts).len() ==> {
                let line = #[trigger] block_lines(stmts)[i];
                &&& line is Text
                &&& split_lines(block_text(indent, stmts))[i] == spaces(indent + 4 * line->depth)
                    + line->content
            },
{
    lemma_block_indentation(indent, stmts);
    lemma_block_text_split(indent, stmts);
}

} // verus!
