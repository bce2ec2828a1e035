//! What holds of the text of every tree.

use vstd::prelude::*;
use crate::ast::{Bop, Expression, Try, Uop};
use crate::text::concat;
use crate::visitors::rendering::{
    block_text, bop_text, except_texts, expr_text, is_atom, operand_text, section_text, try_text,
    uop_text,
};

verus! {

/// The text of a binary operation is its left operand, the operator and its
/// right operand. An operand that is not an atom stands between parentheses,
/// whatever the operators bind; an atom stands as it is.
pub proof fn lemma_binary_operands(op: Bop, left: Expression, right: Expression)
    ensures
        expr_text(Expression::Bop(op, Box::new(left), Box::new(right))) == operand_text(left)
            + bop_text(op) + operand_text(right),
        !is_atom(left) ==> operand_text(left) == seq!['('] + expr_text(left) + seq![')'],
        !is_atom(right) ==> operand_text(right) == seq!['('] + expr_text(right) + seq![')'],
        is_atom(left) ==> operand_text(left) == expr_text(left),
        is_atom(right) ==> operand_text(right) == expr_text(right),
{
    reveal_strlit("(");
    reveal_strlit(")");
    assert("("@ =~= seq!['(']);
    assert(")"@ =~= seq![')']);
}

/// The text of a unary operation is the operator and its operand, which
/// stands between parentheses unless it is an atom.
pub proof fn lemma_unary_operand(op: Uop, operand: Expression)
    ensures
        expr_text(Expression::Uop(op, Box::new(operand))) == uop_text(op) + operand_text(operand),
        !is_atom(operand) ==> operand_text(operand) == seq!['('] + expr_text(operand) + seq![')'],
        is_atom(operand) ==> operand_text(operand) == expr_text(operand),
{
    reveal_strlit("(");
    reveal_strlit(")");
    assert("("@ =~= seq!['(']);
    assert(")"@ =~= seq![')']);
}

/// Each of the three parts of a conditional expression stands between
/// parentheses, whatever it is.
pub proof fn lemma_ternary_operands(first: Expression, second: Expression, third: Expression)
    ensures
        expr_text(Expression::Ternary(Box::new(first), Box::new(second), Box::new(third)))
            == seq!['('] + expr_text(first) + seq![')'] + " if "@ + seq!['('] + expr_text(second)
            + seq![')'] + " else "@ + seq!['('] + expr_text(third) + seq![')'],
{
    reveal_strlit("(");
    reveal_strlit(")");
    reveal_strlit(") if (");
    reveal_strlit(") else (");
    reveal_strlit(" if ");
    reveal_strlit(" else ");
    let whole = expr_text(Expression::Ternary(Box::new(first), Box::new(second), Box::new(third)));
    assert(") if ("@ =~= seq![')'] + " if "@ + seq!['(']);
    assert(") else ("@ =~= seq![')'] + " else "@ + seq!['(']);
    assert(whole =~= seq!['('] + expr_text(first) + seq![')'] + " if "@ + seq!['('] + expr_text(
        second,
    ) + seq![')'] + " else "@ + seq!['('] + expr_text(third) + seq![')']);
}

/// A `try` statement whose bare `except`, `else` and `finally` blocks are all
/// empty is written as its `try` block and its `except` clauses alone: none
/// of the three header lines is there.
pub proof fn lemma_try_empty_sections(indent: nat, t: Try)
    requires
        t.last_except@.len() == 0,
        t.else_block@.len() == 0,
        t.finally_block@.len() == 0,
    ensures
        try_text(indent, t) == "try:"@ + "\n"@ + block_text(indent + 4, t.try_block@) + concat(
            except_texts(indent, t.except_clauses@),
        ),
{
    assert(section_text(indent, "except:"@, t.last_except@) =~= Seq::<char>::empty());
    assert(section_text(indent, "else:"@, t.else_block@) =~= Seq::<char>::empty());
    assert(section_text(indent, "finally:"@, t.finally_block@) =~= Seq::<char>::empty());
    assert(try_text(indent, t) =~= "try:"@ + "\n"@ + block_text(indent + 4, t.try_block@)
        + concat(except_texts(indent, t.except_clauses@)));
}

} // verus!
