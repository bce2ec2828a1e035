//! The text of a block, line by line.
//!
//! A block is written as a list of lines. Each line has a depth, the number
//! of blocks that it is nested in below the block that is written, and is
//! indented by four spaces for each of them. The one line that is not
//! indented at all is the empty line that ends a function definition.

use vstd::prelude::*;
use crate::ast::{CompoundStatement, Decorator, Expression, Funcdef, Name, Statement, Try};
use crate::text::{concat, concat_first, lemma_concat_add, spaces, unbroken};
use crate::visitors::rendering::{
    block_text, branch_line_text, branch_texts, compound_text, decorator_line_text,
    decorator_texts, decorators_text, def_line_text, else_text, except_line_text, except_texts,
    for_line_text, funcdef_text, section_text, simple_stmt_text, stmt_text, stmt_texts, try_text,
    while_line_text, with_line_text,
};

verus! {

/// A line of a block.
pub enum Line {
    /// A line break and nothing else.
    Empty,
    /// A line that is nested `depth` blocks deep, with what it holds after
    /// its indentation and before its line break.
    Text { depth: nat, content: Seq<char> },
}

/// A line where it stands in a block that is indented by `indent` spaces:
/// four more spaces for each block that it is nested in.
pub open spec fn line_text(indent: nat, line: Line) -> Seq<char> {
    match line {
        Line::Empty => "\n"@,
        Line::Text { depth, content } => spaces(indent + 4 * depth) + content + "\n"@,
    }
}

/// Each line as it is written in a block that is indented by `indent`
/// spaces.
pub open spec fn line_texts(indent: nat, lines: Seq<Line>) -> Seq<Seq<char>> {
    Seq::new(lines.len(), |i: int| line_text(indent, lines[i]))
}

/// The lines, one after the other, in a block that is indented by `indent`
/// spaces.
pub open spec fn lines_text(indent: nat, lines: Seq<Line>) -> Seq<char> {
    concat(line_texts(indent, lines))
}

/// One line of the block itself.
pub open spec fn header(content: Seq<char>) -> Seq<Line> {
    seq![Line::Text { depth: 0, content }]
}

/// The lines of a block where it is nested in another: each one block
/// deeper.
pub open spec fn nested(lines: Seq<Line>) -> Seq<Line> {
    Seq::new(
        lines.len(),
        |i: int|
            match lines[i] {
                Line::Empty => Line::Empty,
                Line::Text { depth, content } => Line::Text { depth: depth + 1, content },
            },
    )
}

/// The lines of a statement.
pub open spec fn stmt_lines(s: Statement) -> Seq<Line>
    decreases s, 0nat,
{
    match s {
        Statement::Compound(c) => compound_lines(*c),
        _ => header(simple_stmt_text(s)),
    }
}

/// The lines of the first `n` statements of a block.
pub open spec fn block_lines_first(stmts: Seq<Statement>, n: nat) -> Seq<Line>
    decreases stmts, n,
{
    if n == 0 || n > stmts.len() {
        Seq::empty()
    } else {
        block_lines_first(stmts, (n - 1) as nat) + stmt_lines(stmts[n - 1])
    }
}

/// The lines of a block: those of its statements in order.
pub open spec fn block_lines(stmts: Seq<Statement>) -> Seq<Line>
    decreases stmts, stmts.len() + 1,
{
    block_lines_first(stmts, stmts.len())
}

/// The lines of the first `n` branches of an `if` statement: for each the
/// line that opens it, then its block one level deeper.
pub open spec fn branch_lines_first(branches: Seq<(Expression, Vec<Statement>)>, n: nat) -> Seq<
    Line,
>
    decreases branches, n,
{
    if n == 0 || n > branches.len() {
        Seq::empty()
    } else {
        branch_lines_first(branches, (n - 1) as nat) + header(
            branch_line_text(n == 1, branches[n - 1].0),
        ) + nested(block_lines(branches[n - 1].1@))
    }
}

/// The lines of an `else` part.
pub open spec fn else_lines(else_block: Option<Vec<Statement>>) -> Seq<Line>
    decreases else_block, 0nat,
{
    match else_block {
        Some(block) => header("else:"@) + nested(block_lines(block@)),
        None => Seq::empty(),
    }
}

/// The lines of a section of a `try` statement that is left out where its
/// block is empty.
pub open spec fn section_lines(opening: Seq<char>, block: Seq<Statement>) -> Seq<Line>
    decreases block, block.len() + 2,
{
    if block.len() > 0 {
        header(opening) + nested(block_lines(block))
    } else {
        Seq::empty()
    }
}

/// The lines of the first `n` `except` clauses that name what they catch.
pub open spec fn except_lines_first(
    clauses: Seq<(Expression, Option<Name>, Vec<Statement>)>,
    n: nat,
) -> Seq<Line>
    decreases clauses, n,
{
    if n == 0 || n > clauses.len() {
        Seq::empty()
    } else {
        except_lines_first(clauses, (n - 1) as nat) + header(
            except_line_text(clauses[n - 1].0, clauses[n - 1].1),
        ) + nested(block_lines(clauses[n - 1].2@))
    }
}

/// The lines of a `try` statement.
pub open spec fn try_lines(t: Try) -> Seq<Line>
    decreases t, 0nat,
{
    header("try:"@) + nested(block_lines(t.try_block@)) + except_lines_first(
        t.except_clauses@,
        t.except_clauses@.len(),
    ) + section_lines("except:"@, t.last_except@) + section_lines("else:"@, t.else_block@)
        + section_lines("finally:"@, t.finally_block@)
}

/// The lines of the decorators of a definition.
pub open spec fn decorator_lines(decorators: Seq<Decorator>) -> Seq<Line> {
    Seq::new(
        decorators.len(),
        |i: int| Line::Text { depth: 0, content: decorator_line_text(decorators[i]) },
    )
}

/// The lines of a function definition: a line that holds nothing but its
/// indentation, the decorators, the `def` line, the body one level deeper,
/// and an empty line.
pub open spec fn funcdef_lines(f: Funcdef) -> Seq<Line>
    decreases f, 0nat,
{
    header(Seq::empty()) + decorator_lines(f.decorators@) + header(def_line_text(f)) + nested(
        block_lines(f.code@),
    ) + seq![Line::Empty]
}

/// The lines of a compound statement: the lines that open its blocks, and
/// each of its blocks one level deeper.
pub open spec fn compound_lines(c: CompoundStatement) -> Seq<Line>
    decreases c, 0nat,
{
    match c {
        CompoundStatement::If(branches, else_block) => branch_lines_first(
            branches@,
            branches@.len(),
        ) + else_lines(else_block),
        CompoundStatement::For { is_async, item, iterator, for_block, else_block } => header(
            for_line_text(is_async, item@, iterator@),
        ) + nested(block_lines(for_block@)) + else_lines(else_block),
        CompoundStatement::While(cond, block, else_block) => header(while_line_text(cond))
            + nested(block_lines(block@)) + else_lines(else_block),
        CompoundStatement::With(contexts, block) => header(with_line_text(contexts@)) + nested(
            block_lines(block@),
        ),
        CompoundStatement::Funcdef(f) => funcdef_lines(f),
        CompoundStatement::Classdef(_) => Seq::empty(),
        CompoundStatement::Try(t) => try_lines(t),
    }
}

/// Whether a statement has the shape that the printer writes lines for:
/// every `if` statement in it has a branch, and it holds no class
/// definition. With `definitions` false it holds no function definition
/// either.
pub open spec fn stmt_shaped(s: Statement, definitions: bool) -> bool
    decreases s, 0nat,
{
    match s {
        Statement::Compound(c) => compound_shaped(*c, definitions),
        _ => true,
    }
}

/// Whether every statement of a block has the shape that the printer writes
/// lines for.
pub open spec fn block_shaped(stmts: Seq<Statement>, definitions: bool) -> bool
    decreases stmts, 0nat,
{
    forall|i: int| 0 <= i < stmts.len() ==> stmt_shaped(#[trigger] stmts[i], definitions)
}

/// Whether an `else` part has the shape that the printer writes lines for.
pub open spec fn else_shaped(else_block: Option<Vec<Statement>>, definitions: bool) -> bool
    decreases else_block, 0nat,
{
    match else_block {
        Some(block) => block_shaped(block@, definitions),
        None => true,
    }
}

/// Whether a compound statement has the shape that the printer writes lines
/// for.
pub open spec fn compound_shaped(c: CompoundStatement, definitions: bool) -> bool
    decreases c, 0nat,
{
    match c {
        CompoundStatement::If(branches, else_block) => {
            &&& branches@.len() > 0
            &&& forall|i: int|
                0 <= i < branches@.len() ==> block_shaped(
                    (#[trigger] branches@[i]).1@,
                    definitions,
                )
            &&& else_shaped(else_block, definitions)
        },
        CompoundStatement::For { is_async, item, iterator, for_block, else_block } => block_shaped(
            for_block@,
            definitions,
        ) && else_shaped(else_block, definitions),
        CompoundStatement::While(cond, block, else_block) => block_shaped(block@, definitions)
            && else_shaped(else_block, definitions),
        CompoundStatement::With(contexts, block) => block_shaped(block@, definitions),
        CompoundStatement::Funcdef(f) => definitions && block_shaped(f.code@, definitions),
        CompoundStatement::Classdef(_) => false,
        CompoundStatement::Try(t) => {
            &&& block_shaped(t.try_block@, definitions)
            &&& forall|i: int|
                0 <= i < t.except_clauses@.len() ==> block_shaped(
                    (#[trigger] t.except_clauses@[i]).2@,
                    definitions,
                )
            &&& block_shaped(t.last_except@, definitions)
            &&& block_shaped(t.else_block@, definitions)
            &&& block_shaped(t.finally_block@, definitions)
        },
    }
}

/// The text of two lists of lines is the text of the first, then that of
/// the second.
proof fn lemma_lines_add(indent: nat, a: Seq<Line>, b: Seq<Line>)
    ensures
        lines_text(indent, a + b) == lines_text(indent, a) + lines_text(indent, b),
{
    assert(line_texts(indent, a + b) =~= line_texts(indent, a) + line_texts(indent, b));
    lemma_concat_add(line_texts(indent, a), line_texts(indent, b));
}

/// Lines that are nested one block deeper are written as they are in a
/// block that is indented by four spaces more.
proof fn lemma_lines_nested(indent: nat, lines: Seq<Line>)
    ensures
        lines_text(indent, nested(lines)) == lines_text(indent + 4, lines),
{
    assert(line_texts(indent, nested(lines)) =~= line_texts(indent + 4, lines)) by {
        assert forall|i: int| 0 <= i < lines.len() implies line_text(indent, nested(lines)[i])
            == line_text(indent + 4, lines[i]) by {
            match lines[i] {
                Line::Empty => {},
                Line::Text { depth, content } => {
                    assert(indent + 4 * (depth + 1) == indent + 4 + 4 * depth);
                },
            }
        }
    }
}

/// A single line of the block itself is its indentation, what it holds and
/// a line break.
proof fn lemma_lines_header(indent: nat, content: Seq<char>)
    ensures
        lines_text(indent, header(content)) == spaces(indent) + content + "\n"@,
{
    let texts = line_texts(indent, header(content));
    assert(texts[0] == spaces(indent + 4 * 0) + content + "\n"@);
    assert(concat_first(texts, 1) =~= texts[0]) by {
        assert(concat_first(texts, 0) =~= Seq::<char>::empty());
    }
}

/// No lines are no text.
proof fn lemma_lines_none(indent: nat)
    ensures
        lines_text(indent, Seq::empty()) == Seq::<char>::empty(),
{
    assert(line_texts(indent, Seq::empty()) =~= Seq::<Seq<char>>::empty());
}

/// Text in front of a line, its line break and what follows goes with the
/// line.
proof fn lemma_front2(p: Seq<char>, a: Seq<char>, b: Seq<char>, c: Seq<char>)
    ensures
        p + (a + b + c) == p + a + b + c,
{
    assert(p + (a + b + c) =~= p + a + b + c);
}

/// Text in front of four pieces goes with the first of them.
proof fn lemma_front3(p: Seq<char>, a: Seq<char>, b: Seq<char>, c: Seq<char>, d: Seq<char>)
    ensures
        p + (a + b + c + d) == p + a + b + c + d,
{
    assert(p + (a + b + c + d) =~= p + a + b + c + d);
}

/// Text in front of seven pieces goes with the first of them.
proof fn lemma_front6(
    p: Seq<char>,
    a: Seq<char>,
    b: Seq<char>,
    c: Seq<char>,
    d: Seq<char>,
    e: Seq<char>,
    f: Seq<char>,
    g: Seq<char>,
)
    ensures
        p + (a + b + c + d + e + f + g) == p + a + b + c + d + e + f + g,
{
    assert(p + (a + b + c + d + e + f + g) =~= p + a + b + c + d + e + f + g);
}

/// The pieces of a function definition, line by line.
proof fn lemma_definition_pieces(
    p: Seq<char>,
    br: Seq<char>,
    decorators: Seq<char>,
    line: Seq<char>,
    body: Seq<char>,
)
    ensures
        p + (br + decorators + p + line + br + body + br) == (p + Seq::<char>::empty() + br)
            + decorators + (p + line + br) + body + br,
{
    assert(p + (br + decorators + p + line + br + body + br) =~= (p + Seq::<char>::empty() + br)
        + decorators + (p + line + br) + body + br);
}

/// Every line that the printer writes for a statement is indented by the
/// indentation of the block that the statement stands in and by four more
/// spaces for each block that the line is nested in below it. The one
/// exception is the empty line that ends a function definition, which is
/// not indented.
pub proof fn lemma_stmt_layout(indent: nat, s: Statement)
    requires
        stmt_shaped(s, true),
    ensures
        stmt_text(indent, s) == lines_text(indent, stmt_lines(s)),
    decreases s, 0nat,
{
    match s {
        Statement::Compound(c) => {
            lemma_compound_layout(indent, *c);
        },
        _ => {
            lemma_lines_header(indent, simple_stmt_text(s));
        },
    }
}

/// The first `n` statements of a block are written as their lines.
proof fn lemma_block_layout_first(indent: nat, stmts: Seq<Statement>, n: nat)
    requires
        block_shaped(stmts, true),
        n <= stmts.len(),
    ensures
        concat_first(stmt_texts(indent, stmts), n) == lines_text(
            indent,
            block_lines_first(stmts, n),
        ),
    decreases stmts, n,
{
    if n == 0 {
        lemma_lines_none(indent);
    } else {
        lemma_block_layout_first(indent, stmts, (n - 1) as nat);
        lemma_stmt_layout(indent, stmts[n - 1]);
        lemma_lines_add(indent, block_lines_first(stmts, (n - 1) as nat), stmt_lines(stmts[n - 1]));
    }
}

/// Every line that the printer writes for a block is indented by the
/// indentation of the block and by four more spaces for each block that the
/// line is nested in below it: the depth grows by one from a block to a
/// block nested in it, and by the same for each of several blocks of one
/// statement. The one exception is the empty line that ends a function
/// definition, which is not indented.
pub proof fn lemma_block_layout(indent: nat, stmts: Seq<Statement>)
    requires
        block_shaped(stmts, true),
    ensures
        block_text(indent, stmts) == lines_text(indent, block_lines(stmts)),
    decreases stmts, stmts.len() + 1,
{
    lemma_block_layout_first(indent, stmts, stmts.len());
}

/// A line that opens a block and the block: the line at the indentation of
/// the statement, the block one level deeper.
proof fn lemma_opened_block_layout(indent: nat, opening: Seq<char>, block: Seq<Statement>)
    requires
        block_shaped(block, true),
    ensures
        spaces(indent) + opening + "\n"@ + block_text(indent + 4, block) == lines_text(
            indent,
            header(opening) + nested(block_lines(block)),
        ),
    decreases block, block.len() + 2,
{
    lemma_lines_header(indent, opening);
    lemma_block_layout(indent + 4, block);
    lemma_lines_nested(indent, block_lines(block));
    lemma_lines_add(indent, header(opening), nested(block_lines(block)));
}

/// The first `n` branches of an `if` statement, with the indentation of the
/// statement in front, are written as their lines.
proof fn lemma_branches_layout(
    indent: nat,
    branches: Seq<(Expression, Vec<Statement>)>,
    n: nat,
)
    requires
        1 <= n <= branches.len(),
        forall|i: int| 0 <= i < branches.len() ==> block_shaped((#[trigger] branches[i]).1@, true),
    ensures
        spaces(indent) + concat_first(branch_texts(indent, branches), n) == lines_text(
            indent,
            branch_lines_first(branches, n),
        ),
    decreases branches, n,
{
    let line = branch_line_text(n == 1, branches[n - 1].0);
    let before = branch_lines_first(branches, (n - 1) as nat);
    let block = branches[n - 1].1@;
    let all = branch_texts(indent, branches);
    lemma_opened_block_layout(indent, line, block);
    lemma_lines_add(indent, before, header(line) + nested(block_lines(block)));
    assert(before + header(line) + nested(block_lines(block)) =~= before + (header(line) + nested(
        block_lines(block),
    )));
    if n == 1 {
        lemma_lines_none(indent);
        assert(concat_first(all, 0) =~= Seq::<char>::empty());
        assert(all[0] == Seq::<char>::empty() + line + "\n"@ + block_text(indent + 4, block));
        assert(spaces(indent) + (Seq::<char>::empty() + (Seq::<char>::empty() + line + "\n"@
            + block_text(indent + 4, block))) =~= Seq::<char>::empty() + (spaces(indent) + line
            + "\n"@ + block_text(indent + 4, block)));
    } else {
        lemma_branches_layout(indent, branches, (n - 1) as nat);
        assert(all[n - 1] == spaces(indent) + line + "\n"@ + block_text(indent + 4, block));
        assert(spaces(indent) + (concat_first(all, (n - 1) as nat) + all[n - 1]) =~= (spaces(
            indent,
        ) + concat_first(all, (n - 1) as nat)) + all[n - 1]);
    }
}

/// An `else` part is written as its lines.
proof fn lemma_else_layout(indent: nat, else_block: Option<Vec<Statement>>)
    requires
        else_shaped(else_block, true),
    ensures
        else_text(indent, else_block) == lines_text(indent, else_lines(else_block)),
    decreases else_block, 0nat,
{
    match else_block {
        Some(block) => {
            lemma_opened_block_layout(indent, "else:"@, block@);
        },
        None => {
            lemma_lines_none(indent);
        },
    }
}

/// A section of a `try` statement is written as its lines.
proof fn lemma_section_layout(indent: nat, opening: Seq<char>, block: Seq<Statement>)
    requires
        block_shaped(block, true),
    ensures
        section_text(indent, opening, block) == lines_text(indent, section_lines(opening, block)),
    decreases block, block.len() + 3,
{
    if block.len() > 0 {
        lemma_opened_block_layout(indent, opening, block);
    } else {
        lemma_lines_none(indent);
    }
}

/// The first `n` `except` clauses are written as their lines.
proof fn lemma_excepts_layout(
    indent: nat,
    clauses: Seq<(Expression, Option<Name>, Vec<Statement>)>,
    n: nat,
)
    requires
        n <= clauses.len(),
        forall|i: int| 0 <= i < clauses.len() ==> block_shaped((#[trigger] clauses[i]).2@, true),
    ensures
        concat_first(except_texts(indent, clauses), n) == lines_text(
            indent,
            except_lines_first(clauses, n),
        ),
    decreases clauses, n,
{
    if n == 0 {
        lemma_lines_none(indent);
    } else {
        let line = except_line_text(clauses[n - 1].0, clauses[n - 1].1);
        let before = except_lines_first(clauses, (n - 1) as nat);
        let block = clauses[n - 1].2@;
        lemma_excepts_layout(indent, clauses, (n - 1) as nat);
        lemma_opened_block_layout(indent, line, block);
        lemma_lines_add(indent, before, header(line) + nested(block_lines(block)));
        assert(before + header(line) + nested(block_lines(block)) =~= before + (header(line)
            + nested(block_lines(block))));
        assert(except_texts(indent, clauses)[n - 1] == spaces(indent) + line + "\n"@ + block_text(
            indent + 4,
            block,
        ));
    }
}

/// A `try` statement, with the indentation of the statement in front, is
/// written as its lines.
proof fn lemma_try_layout(indent: nat, t: Try)
    requires
        compound_shaped(CompoundStatement::Try(t), true),
    ensures
        spaces(indent) + try_text(indent, t) == lines_text(indent, try_lines(t)),
    decreases t, 0nat,
{
    let l12 = header("try:"@) + nested(block_lines(t.try_block@));
    let l3 = except_lines_first(t.except_clauses@, t.except_clauses@.len());
    let l4 = section_lines("except:"@, t.last_except@);
    let l5 = section_lines("else:"@, t.else_block@);
    let l6 = section_lines("finally:"@, t.finally_block@);
    lemma_opened_block_layout(indent, "try:"@, t.try_block@);
    lemma_excepts_layout(indent, t.except_clauses@, t.except_clauses@.len());
    lemma_section_layout(indent, "except:"@, t.last_except@);
    lemma_section_layout(indent, "else:"@, t.else_block@);
    lemma_section_layout(indent, "finally:"@, t.finally_block@);
    lemma_lines_add(indent, l12, l3);
    lemma_lines_add(indent, l12 + l3, l4);
    lemma_lines_add(indent, l12 + l3 + l4, l5);
    lemma_lines_add(indent, l12 + l3 + l4 + l5, l6);
    lemma_front6(
        spaces(indent),
        "try:"@,
        "\n"@,
        block_text(indent + 4, t.try_block@),
        concat(except_texts(indent, t.except_clauses@)),
        section_text(indent, "except:"@, t.last_except@),
        section_text(indent, "else:"@, t.else_block@),
        section_text(indent, "finally:"@, t.finally_block@),
    );
}

/// The decorators of a definition are written as their lines.
proof fn lemma_decorators_layout(indent: nat, decorators: Seq<Decorator>)
    ensures
        decorators_text(indent, decorators) == lines_text(indent, decorator_lines(decorators)),
{
    assert(decorator_texts(indent, decorators) =~= line_texts(
        indent,
        decorator_lines(decorators),
    )) by {
        assert forall|i: int| 0 <= i < decorators.len() implies decorator_texts(
            indent,
            decorators,
        )[i] == line_texts(indent, decorator_lines(decorators))[i] by {
            assert(indent + 4 * 0 == indent);
        }
    }
}

/// A function definition, with the indentation of the statement in front,
/// is written as its lines.
proof fn lemma_funcdef_layout(indent: nat, f: Funcdef)
    requires
        block_shaped(f.code@, true),
    ensures
        spaces(indent) + funcdef_text(indent, f) == lines_text(indent, funcdef_lines(f)),
    decreases f, 0nat,
{
    let l1 = header(Seq::empty());
    let l2 = decorator_lines(f.decorators@);
    let l3 = header(def_line_text(f));
    let l4 = nested(block_lines(f.code@));
    let l5 = seq![Line::Empty];
    lemma_lines_header(indent, Seq::empty());
    lemma_decorators_layout(indent, f.decorators@);
    lemma_lines_header(indent, def_line_text(f));
    lemma_block_layout(indent + 4, f.code@);
    lemma_lines_nested(indent, block_lines(f.code@));
    assert(lines_text(indent, l5) == "\n"@) by {
        assert(concat_first(line_texts(indent, l5), 0) =~= Seq::<char>::empty());
        assert(line_texts(indent, l5)[0] == "\n"@);
        assert(concat_first(line_texts(indent, l5), 1) =~= "\n"@);
    }
    lemma_lines_add(indent, l1, l2);
    lemma_lines_add(indent, l1 + l2, l3);
    lemma_lines_add(indent, l1 + l2 + l3, l4);
    lemma_lines_add(indent, l1 + l2 + l3 + l4, l5);
    lemma_definition_pieces(
        spaces(indent),
        "\n"@,
        decorators_text(indent, f.decorators@),
        def_line_text(f),
        block_text(indent + 4, f.code@),
    );
}

/// A compound statement with the indentation of its first line in front is
/// its lines: the lines that open its blocks at the indentation of the
/// statement, each nested block one level deeper.
pub proof fn lemma_compound_layout(indent: nat, c: CompoundStatement)
    requires
        compound_shaped(c, true),
    ensures
        spaces(indent) + compound_text(indent, c) == lines_text(indent, compound_lines(c)),
    decreases c, 0nat,
{
    match c {
        CompoundStatement::If(branches, else_block) => {
            let l1 = branch_lines_first(branches@, branches@.len());
            lemma_branches_layout(indent, branches@, branches@.len());
            lemma_else_layout(indent, else_block);
            lemma_lines_add(indent, l1, else_lines(else_block));
            assert(spaces(indent) + (concat(branch_texts(indent, branches@)) + else_text(
                indent,
                else_block,
            )) =~= spaces(indent) + concat(branch_texts(indent, branches@)) + else_text(
                indent,
                else_block,
            ));
        },
        CompoundStatement::For { is_async, item, iterator, for_block, else_block } => {
            let line = for_line_text(is_async, item@, iterator@);
            lemma_opened_block_layout(indent, line, for_block@);
            lemma_else_layout(indent, else_block);
            lemma_lines_add(
                indent,
                header(line) + nested(block_lines(for_block@)),
                else_lines(else_block),
            );
            lemma_front3(
                spaces(indent),
                line,
                "\n"@,
                block_text(indent + 4, for_block@),
                else_text(indent, else_block),
            );
        },
        CompoundStatement::While(cond, block, else_block) => {
            let line = while_line_text(cond);
            lemma_opened_block_layout(indent, line, block@);
            lemma_else_layout(indent, else_block);
            lemma_lines_add(
                indent,
                header(line) + nested(block_lines(block@)),
                else_lines(else_block),
            );
            lemma_front3(
                spaces(indent),
                line,
                "\n"@,
                block_text(indent + 4, block@),
                else_text(indent, else_block),
            );
        },
        CompoundStatement::With(contexts, block) => {
            let line = with_line_text(contexts@);
            lemma_opened_block_layout(indent, line, block@);
            lemma_front2(spaces(indent), line, "\n"@, block_text(indent + 4, block@));
        },
        CompoundStatement::Funcdef(f) => {
            lemma_funcdef_layout(indent, f);
        },
        CompoundStatement::Classdef(_) => {},
        CompoundStatement::Try(t) => {
            lemma_try_layout(indent, t);
        },
    }
}

/// Whether every line is indented: none is the empty line.
pub open spec fn all_indented(lines: Seq<Line>) -> bool {
    forall|i: int| 0 <= i < lines.len() ==> (#[trigger] lines[i]) is Text
}

/// Lines that are all indented, one list after another, are all indented.
proof fn lemma_indented_add(a: Seq<Line>, b: Seq<Line>)
    requires
        all_indented(a),
        all_indented(b),
    ensures
        all_indented(a + b),
{
    assert forall|i: int| 0 <= i < (a + b).len() implies (#[trigger] (a + b)[i]) is Text by {
        if i < a.len() {
            assert((a + b)[i] == a[i]);
        } else {
            assert((a + b)[i] == b[i - a.len()]);
        }
    }
}

/// Indented lines, then a line that opens a block and the block, are all
/// indented where the block holds no function definition.
proof fn lemma_opened_block_indented(
    before: Seq<Line>,
    opening: Seq<char>,
    block: Seq<Statement>,
)
    requires
        all_indented(before),
        block_shaped(block, false),
    ensures
        block_shaped(block, true),
        all_indented(before + header(opening) + nested(block_lines(block))),
    decreases block, block.len() + 2,
{
    lemma_block_indented_first(block, block.len());
    let body = nested(block_lines(block));
    assert(all_indented(body)) by {
        assert forall|i: int| 0 <= i < body.len() implies (#[trigger] body[i]) is Text by {
            assert(block_lines(block)[i] is Text);
        }
    }
    lemma_indented_add(before, header(opening));
    lemma_indented_add(before + header(opening), body);
}

/// The lines of a statement that holds no function definition are all
/// indented.
proof fn lemma_stmt_indented(s: Statement)
    requires
        stmt_shaped(s, false),
    ensures
        stmt_shaped(s, true),
        all_indented(stmt_lines(s)),
    decreases s, 0nat,
{
    match s {
        Statement::Compound(c) => {
            lemma_compound_indented(*c);
        },
        _ => {},
    }
}

/// The lines of the first `n` statements of a block that holds no function
/// definition are all indented.
proof fn lemma_block_indented_first(stmts: Seq<Statement>, n: nat)
    requires
        block_shaped(stmts, false),
        n <= stmts.len(),
    ensures
        block_shaped(stmts, true),
        all_indented(block_lines_first(stmts, n)),
    decreases stmts, n,
{
    assert forall|i: int| 0 <= i < stmts.len() implies stmt_shaped(#[trigger] stmts[i], true) by {
        lemma_stmt_indented(stmts[i]);
    }
    if n > 0 {
        lemma_block_indented_first(stmts, (n - 1) as nat);
        lemma_stmt_indented(stmts[n - 1]);
    }
}

/// The lines of the first `n` branches of an `if` statement that holds no
/// function definition are all indented.
proof fn lemma_branches_indented(branches: Seq<(Expression, Vec<Statement>)>, n: nat)
    requires
        n <= branches.len(),
        forall|i: int| 0 <= i < branches.len() ==> block_shaped((#[trigger] branches[i]).1@, false),
    ensures
        forall|i: int| 0 <= i < branches.len() ==> block_shaped((#[trigger] branches[i]).1@, true),
        all_indented(branch_lines_first(branches, n)),
    decreases branches, n,
{
    assert forall|i: int| 0 <= i < branches.len() implies block_shaped(
        (#[trigger] branches[i]).1@,
        true,
    ) by {
        lemma_block_indented_first(branches[i].1@, 0);
    }
    if n > 0 {
        lemma_branches_indented(branches, (n - 1) as nat);
        lemma_opened_block_indented(
            branch_lines_first(branches, (n - 1) as nat),
            branch_line_text(n == 1, branches[n - 1].0),
            branches[n - 1].1@,
        );
    }
}

/// The lines of an `else` part that holds no function definition are all
/// indented.
proof fn lemma_else_indented(else_block: Option<Vec<Statement>>)
    requires
        else_shaped(else_block, false),
    ensures
        else_shaped(else_block, true),
        all_indented(else_lines(else_block)),
    decreases else_block, 0nat,
{
    match else_block {
        Some(block) => {
            lemma_opened_block_indented(Seq::empty(), "else:"@, block@);
            assert(Seq::<Line>::empty() + header("else:"@) =~= header("else:"@));
        },
        None => {},
    }
}

/// The lines of a section of a `try` statement that holds no function
/// definition are all indented.
proof fn lemma_section_indented(opening: Seq<char>, block: Seq<Statement>)
    requires
        block_shaped(block, false),
    ensures
        block_shaped(block, true),
        all_indented(section_lines(opening, block)),
    decreases block, block.len() + 3,
{
    lemma_opened_block_indented(Seq::empty(), opening, block);
    assert(Seq::<Line>::empty() + header(opening) =~= header(opening));
}

/// The lines of the first `n` `except` clauses are all indented where they
/// hold no function definition.
proof fn lemma_excepts_indented(clauses: Seq<(Expression, Option<Name>, Vec<Statement>)>, n: nat)
    requires
        n <= clauses.len(),
        forall|i: int| 0 <= i < clauses.len() ==> block_shaped((#[trigger] clauses[i]).2@, false),
    ensures
        forall|i: int| 0 <= i < clauses.len() ==> block_shaped((#[trigger] clauses[i]).2@, true),
        all_indented(except_lines_first(clauses, n)),
    decreases clauses, n,
{
    assert forall|i: int| 0 <= i < clauses.len() implies block_shaped(
        (#[trigger] clauses[i]).2@,
        true,
    ) by {
        lemma_block_indented_first(clauses[i].2@, 0);
    }
    if n > 0 {
        lemma_excepts_indented(clauses, (n - 1) as nat);
        lemma_opened_block_indented(
            except_lines_first(clauses, (n - 1) as nat),
            except_line_text(clauses[n - 1].0, clauses[n - 1].1),
            clauses[n - 1].2@,
        );
    }
}

/// The lines of a `try` statement that holds no function definition are all
/// indented.
proof fn lemma_try_indented(t: Try)
    requires
        compound_shaped(CompoundStatement::Try(t), false),
    ensures
        compound_shaped(CompoundStatement::Try(t), true),
        all_indented(try_lines(t)),
    decreases t, 0nat,
{
    let l12 = header("try:"@) + nested(block_lines(t.try_block@));
    let l3 = except_lines_first(t.except_clauses@, t.except_clauses@.len());
    let l4 = section_lines("except:"@, t.last_except@);
    let l5 = section_lines("else:"@, t.else_block@);
    let l6 = section_lines("finally:"@, t.finally_block@);
    lemma_opened_block_indented(Seq::empty(), "try:"@, t.try_block@);
    assert(Seq::<Line>::empty() + header("try:"@) =~= header("try:"@));
    lemma_excepts_indented(t.except_clauses@, t.except_clauses@.len());
    lemma_section_indented("except:"@, t.last_except@);
    lemma_section_indented("else:"@, t.else_block@);
    lemma_section_indented("finally:"@, t.finally_block@);
    lemma_indented_add(l12, l3);
    lemma_indented_add(l12 + l3, l4);
    lemma_indented_add(l12 + l3 + l4, l5);
    lemma_indented_add(l12 + l3 + l4 + l5, l6);
}

/// The lines of a compound statement that holds no function definition are
/// all indented.
proof fn lemma_compound_indented(c: CompoundStatement)
    requires
        compound_shaped(c, false),
    ensures
        compound_shaped(c, true),
        all_indented(compound_lines(c)),
    decreases c, 0nat,
{
    match c {
        CompoundStatement::If(branches, else_block) => {
            lemma_branches_indented(branches@, branches@.len());
            lemma_else_indented(else_block);
            lemma_indented_add(
                branch_lines_first(branches@, branches@.len()),
                else_lines(else_block),
            );
        },
        CompoundStatement::For { is_async, item, iterator, for_block, else_block } => {
            let line = for_line_text(is_async, item@, iterator@);
            lemma_opened_block_indented(Seq::empty(), line, for_block@);
            assert(Seq::<Line>::empty() + header(line) =~= header(line));
            lemma_else_indented(else_block);
            lemma_indented_add(
                header(line) + nested(block_lines(for_block@)),
                else_lines(else_block),
            );
        },
        CompoundStatement::While(cond, block, else_block) => {
            let line = while_line_text(cond);
            lemma_opened_block_indented(Seq::empty(), line, block@);
            assert(Seq::<Line>::empty() + header(line) =~= header(line));
            lemma_else_indented(else_block);
            lemma_indented_add(header(line) + nested(block_lines(block@)), else_lines(else_block));
        },
        CompoundStatement::With(contexts, block) => {
            let line = with_line_text(contexts@);
            lemma_opened_block_indented(Seq::empty(), line, block@);
            assert(Seq::<Line>::empty() + header(line) =~= header(line));
        },
        CompoundStatement::Funcdef(_) => {},
        CompoundStatement::Classdef(_) => {},
        CompoundStatement::Try(t) => {
            lemma_try_indented(t);
        },
    }
}

/// In a block that holds no function definition every line, at whatever
/// depth, is indented by exactly the indentation of the block and four more
/// spaces for each block that the line is nested in below it.
pub proof fn lemma_block_indentation(indent: nat, stmts: Seq<Statement>)
    requires
        block_shaped(stmts, false),
    ensures
        block_shaped(stmts, true),
        block_text(indent, stmts) == lines_text(indent, block_lines(stmts)),
        forall|i: int|
            0 <= i < block_lines(stmts).len() ==> {
                let line = #[trigger] block_lines(stmts)[i];
                &&& line is Text
                &&& line_text(indent, line) == spaces(indent + 4 * line->depth) + line->content
                    + "\n"@
            },
{
    lemma_block_indented_first(stmts, stmts.len());
    lemma_block_layout(indent, stmts);
}

/// Whether no line holds a line break in what it holds after its
/// indentation.
pub open spec fn lines_unbroken(lines: Seq<Line>) -> bool {
    forall|i: int|
        0 <= i < lines.len() && (#[trigger] lines[i]) is Text ==> unbroken(lines[i]->content)
}

/// How many characters stand before the first line break of a text, or in
/// the text where it holds none.
pub open spec fn first_break(t: Seq<char>) -> nat
    decreases t.len(),
{
    if t.len() == 0 || t[0] == '\n' {
        0
    } else {
        1 + first_break(t.skip(1))
    }
}

/// A text cut at its line breaks: what stands before each of them, and
/// after the last where anything does.
pub open spec fn split_lines(t: Seq<char>) -> Seq<Seq<char>>
    decreases t.len(),
{
    if t.len() == 0 {
        Seq::empty()
    } else if first_break(t) >= t.len() {
        seq![t]
    } else {
        seq![t.take(first_break(t) as int)] + split_lines(t.skip(first_break(t) as int + 1))
    }
}

/// A line as it is written, without its line break.
pub open spec fn line_shown(indent: nat, line: Line) -> Seq<char> {
    match line {
        Line::Empty => Seq::empty(),
        Line::Text { depth, content } => spaces(indent + 4 * depth) + content,
    }
}

/// The first line break of a text that begins with an unbroken text and a
/// line break stands right after the unbroken text.
proof fn lemma_first_break(head: Seq<char>, rest: Seq<char>)
    requires
        unbroken(head),
    ensures
        first_break(head + "\n"@ + rest) == head.len(),
    decreases head.len(),
{
    reveal_strlit("\n");
    let t = head + "\n"@ + rest;
    if head.len() == 0 {
        assert(t[0] == '\n');
    } else {
        assert(t[0] == head[0]);
        assert(unbroken(head.skip(1))) by {
            assert forall|i: int| 0 <= i < head.skip(1).len() implies #[trigger] head.skip(1)[i]
                != '\n' by {
                assert(head.skip(1)[i] == head[i + 1]);
            }
        }
        lemma_first_break(head.skip(1), rest);
        assert(t.skip(1) =~= head.skip(1) + "\n"@ + rest);
    }
}

/// The lines of a block from the `k`-th on, written one after the other and
/// cut at the line breaks, are those lines.
proof fn lemma_lines_split_from(indent: nat, lines: Seq<Line>, k: nat)
    requires
        k <= lines.len(),
        lines_unbroken(lines),
    ensures
        split_lines(lines_text(indent, lines.skip(k as int))) == Seq::new(
            (lines.len() - k) as nat,
            |i: int| line_shown(indent, lines[k + i]),
        ),
    decreases lines.len() - k,
{
    reveal_strlit("\n");
    let tail = lines.skip(k as int);
    if k == lines.len() {
        lemma_lines_none(indent);
        assert(tail =~= Seq::<Line>::empty());
        assert(split_lines(lines_text(indent, tail)) =~= Seq::new(
            0,
            |i: int| line_shown(indent, lines[k + i]),
        ));
    } else {
        let line = lines[k as int];
        let shown = line_shown(indent, line);
        let after = lines.skip(k as int + 1);
        lemma_lines_split_from(indent, lines, k + 1);
        assert(tail =~= seq![line] + after);
        lemma_lines_add(indent, seq![line], after);
        assert(lines_text(indent, seq![line]) == line_text(indent, line)) by {
            let one = line_texts(indent, seq![line]);
            assert(concat_first(one, 0) =~= Seq::<char>::empty());
            assert(one[0] == line_text(indent, line));
            assert(concat_first(one, 1) =~= one[0]);
        }
        assert(line_text(indent, line) =~= shown + "\n"@);
        assert(unbroken(shown)) by {
            match line {
                Line::Empty => {},
                Line::Text { depth, content } => {
                    assert(unbroken(content));
                    assert forall|i: int| 0 <= i < shown.len() implies #[trigger] shown[i]
                        != '\n' by {
                        if i >= spaces(indent + 4 * depth).len() {
                            assert(shown[i] == content[i - spaces(indent + 4 * depth).len()]);
                        }
                    }
                },
            }
        }
        let text = lines_text(indent, tail);
        let rest = lines_text(indent, after);
        assert(text =~= shown + "\n"@ + rest);
        lemma_first_break(shown, rest);
        assert(text.take(shown.len() as int) =~= shown);
        assert(text.skip(shown.len() as int + 1) =~= rest);
        assert(split_lines(text) =~= Seq::new(
            (lines.len() - k) as nat,
            |i: int| line_shown(indent, lines[k + i]),
        )) by {
            let whole = Seq::new(
                (lines.len() - k) as nat,
                |i: int| line_shown(indent, lines[k + i]),
            );
            let later = Seq::new(
                (lines.len() - (k + 1)) as nat,
                |i: int| line_shown(indent, lines[k + 1 + i]),
            );
            assert(whole =~= seq![shown] + later);
        }
    }
}

/// Where no line holds a line break of its own, the text of the lines, cut
/// at its line breaks, is the lines: each line of the text is the
/// indentation of the block, four more spaces for each block that the line
/// is nested in, and what the line holds; an empty line is empty.
pub proof fn lemma_lines_split(indent: nat, lines: Seq<Line>)
    requires
        lines_unbroken(lines),
    ensures
        split_lines(lines_text(indent, lines)) == Seq::new(
            lines.len(),
            |i: int| line_shown(indent, lines[i]),
        ),
{
    lemma_lines_split_from(indent, lines, 0);
    assert(lines.skip(0) =~= lines);
    assert(Seq::new(lines.len(), |i: int| line_shown(indent, lines[0 + i])) =~= Seq::new(
        lines.len(),
        |i: int| line_shown(indent, lines[i]),
    ));
}

} // verus!
