//! The nodes of the tree: expressions, statements, parameter and argument
//! lists, imports and operators. A node owns its children.

use vstd::prelude::*;

verus! {

/// A fault found while an argument list is put together.
#[derive(Clone, Copy, Debug, PartialEq, Eq, Structural)]
pub enum ArgumentError {
    KeywordExpression,
    PositionalAfterKeyword,
    StarargsAfterKeyword,
}

impl ArgumentError {
    /// The integer code that stands for this fault across a foreign boundary.
    pub open spec fn code(self) -> u32 {
        match self {
            ArgumentError::KeywordExpression => 1,
            ArgumentError::PositionalAfterKeyword => 2,
            ArgumentError::StarargsAfterKeyword => 3,
        }
    }

    /// The characters of the message shown for this fault.
    pub open spec fn message(self) -> Seq<char> {
        match self {
            ArgumentError::KeywordExpression => "Keyword cannot be an expression."@,
            ArgumentError::PositionalAfterKeyword =>
                "Positional argument after keyword argument or **kwargs."@,
            ArgumentError::StarargsAfterKeyword => "*args after keyword argument or **kwargs."@,
        }
    }

    /// The message shown for this fault.
    pub fn to_string(self) -> (s: &'static str)
        ensures
            s@ == self.message(),
    {
        match self {
            ArgumentError::KeywordExpression => "Keyword cannot be an expression.",
            ArgumentError::PositionalAfterKeyword =>
                "Positional argument after keyword argument or **kwargs.",
            ArgumentError::StarargsAfterKeyword => "*args after keyword argument or **kwargs.",
        }
    }

    /// The fault that a code stands for. Only 1, 2 and 3 are codes.
    pub fn from(i: u32) -> (e: ArgumentError)
        requires
            1 <= i <= 3,
        ensures
            e.code() == i,
    {
        if i == 1 {
            ArgumentError::KeywordExpression
        } else if i == 2 {
            ArgumentError::PositionalAfterKeyword
        } else {
            ArgumentError::StarargsAfterKeyword
        }
    }
}

/// Every fault has one of the codes 1, 2 and 3, and no two faults share a
/// code: a fault and its code stand for each other.
pub proof fn lemma_codes_distinct(a: ArgumentError, b: ArgumentError)
    ensures
        1 <= a.code() <= 3,
        a.code() == b.code() ==> a == b,
{
}

impl From<ArgumentError> for u32 {
    /// The code of a fault.
    fn from(e: ArgumentError) -> (i: u32) {
        match e {
            ArgumentError::KeywordExpression => 1,
            ArgumentError::PositionalAfterKeyword => 2,
            ArgumentError::StarargsAfterKeyword => 3,
        }
    }
}

impl vstd::std_specs::convert::FromSpecImpl<ArgumentError> for u32 {
    /// The conversion is the one that `from_spec` gives.
    open spec fn obeys_from_spec() -> bool {
        true
    }

    /// The code of a fault.
    open spec fn from_spec(e: ArgumentError) -> u32 {
        e.code()
    }
}

pub type Name = String;

/// The single-star slot of a parameter list.
#[derive(Clone, Debug, PartialEq, Eq, Hash)]
pub enum StarParams<T> {
    /// No single star
    No,
    /// `*` alone, with no name
    Anonymous,
    /// `*args` or `*args:type`
    Named(T),
}

impl<T> Default for StarParams<T> {
    /// No star.
    fn default() -> (r: StarParams<T>)
        ensures
            r is No,
    {
        StarParams::No
    }
}

/// The parameters of a function definition: each may carry an annotation.
#[derive(Debug, PartialEq)]
pub struct TypedArgsList {
    /// Name, annotation and default value of each positional parameter.
    pub positional_args: Vec<(Name, Option<Expression>, Option<Expression>)>,
    pub star_args: StarParams<(Name, Option<Expression>)>,
    /// Name, annotation and default value of each keyword-only parameter.
    pub keyword_args: Vec<(Name, Option<Expression>, Option<Expression>)>,
    pub star_kwargs: Option<(Name, Option<Expression>)>,
}

impl Default for TypedArgsList {
    /// The empty parameter list.
    fn default() -> (r: TypedArgsList)
        ensures
            r.positional_args@.len() == 0,
            r.star_args is No,
            r.keyword_args@.len() == 0,
            r.star_kwargs is None,
    {
        TypedArgsList {
            positional_args: Vec::new(),
            star_args: StarParams::No,
            keyword_args: Vec::new(),
            star_kwargs: None,
        }
    }
}

/// The parameters of a lambda: none carries an annotation.
#[derive(Debug, PartialEq)]
pub struct UntypedArgsList {
    /// Name and default value of each positional parameter.
    pub positional_args: Vec<(Name, Option<Expression>)>,
    pub star_args: StarParams<Name>,
    /// Name and default value of each keyword-only parameter.
    pub keyword_args: Vec<(Name, Option<Expression>)>,
    pub star_kwargs: Option<Name>,
}

impl Default for UntypedArgsList {
    /// The empty parameter list.
    fn default() -> (r: UntypedArgsList)
        ensures
            r.positional_args@.len() == 0,
            r.star_args is No,
            r.keyword_args@.len() == 0,
            r.star_kwargs is None,
    {
        UntypedArgsList {
            positional_args: Vec::new(),
            star_args: StarParams::No,
            keyword_args: Vec::new(),
            star_kwargs: None,
        }
    }
}

#[derive(Debug, PartialEq)]
pub struct Decorator {
    /// The dotted name, one part per element.
    pub name: Vec<Name>,
    pub args: Option<Arglist>,
}

#[derive(Debug, PartialEq)]
pub enum Argument<T> {
    Normal(T),
    Star(Expression),
}

/// The arguments of a call.
#[derive(Debug, PartialEq)]
pub struct Arglist {
    pub positional_args: Vec<Argument<Expression>>,
    pub keyword_args: Vec<Argument<(Name, Expression)>>,
}

#[derive(Debug, PartialEq)]
pub enum Subscript {
    Simple(Expression),
    Double(Option<Expression>, Option<Expression>),
    Triple(Option<Expression>, Option<Expression>, Option<Expression>),
}

#[derive(Clone, Copy, Debug, PartialEq, Eq, Hash)]
pub enum Uop {
    Plus,
    Minus,
    /// `~`
    Invert,
    Not,
}

#[derive(Clone, Copy, Debug, PartialEq, Eq, Hash)]
pub enum Bop {
    Add,
    Sub,
    Mult,
    Matmult,
    Mod,
    Floordiv,
    Div,
    Power,
    Lshift,
    Rshift,
    BitAnd,
    BitXor,
    BitOr,
    /// lower than
    Lt,
    /// greater than
    Gt,
    Eq,
    /// lower or equal
    Leq,
    /// greater or equal
    Geq,
    Neq,
    In,
    NotIn,
    Is,
    IsNot,
    And,
    Or,
}

#[derive(Debug, PartialEq)]
pub enum ComprehensionChunk {
    If { cond: Expression },
    For { is_async: bool, item: Vec<Expression>, iterator: Expression },
}

#[derive(Debug, PartialEq)]
pub enum DictItem {
    Star(Expression),
    Unique(Expression, Expression),
}

#[derive(Debug, PartialEq)]
pub enum SetItem {
    Star(Expression),
    Unique(Expression),
}

#[derive(Debug, PartialEq)]
pub enum Expression {
    Ellipsis,
    NoneLiteral,
    True,
    False,
    Name(Name),
    Int(i64),
    /// Both parts as the bits of an IEEE 754 double.
    Complex { real: u64, imaginary: u64 },
    /// The bits of an IEEE 754 double.
    Float(u64),
    String(String),
    Bytes(Vec<u8>),
    DictLiteral(Vec<DictItem>),
    SetLiteral(Vec<SetItem>),
    ListLiteral(Vec<SetItem>),
    TupleLiteral(Vec<SetItem>),
    DictComp(Box<DictItem>, Vec<ComprehensionChunk>),
    SetComp(Box<SetItem>, Vec<ComprehensionChunk>),
    ListComp(Box<SetItem>, Vec<ComprehensionChunk>),
    Generator(Box<SetItem>, Vec<ComprehensionChunk>),
    Call(Box<Expression>, Arglist),
    Subscript(Box<Expression>, Vec<Subscript>),
    /// `foo.bar`
    Attribute(Box<Expression>, Name),
    /// Unary operator
    Uop(Uop, Box<Expression>),
    /// Binary operator
    Bop(Bop, Box<Expression>, Box<Expression>),
    /// 1 if 2 else 3
    Ternary(Box<Expression>, Box<Expression>, Box<Expression>),
    Yield(Vec<Expression>),
    YieldFrom(Box<Expression>),
    Star(Box<Expression>),
    Lambdef(UntypedArgsList, Box<Expression>),
}

#[derive(Clone, Debug, PartialEq, Eq, Hash)]
pub enum Import {
    /// `from x import y`
    ImportFrom {
        /// For `from .....x import y`, this is 5
        leading_dots: usize,
        /// For `from .....x import y`, this `x`
        path: Vec<Name>,
        /// For `from x import y, z`, this `vec![(y, None), (z, None)]`.
        /// For `from x import y as z`, this `vec![(y, Some(z))]`.
        /// For `from x import *`, this is `vec![]`.
        names: Vec<(Name, Option<Name>)>,
    },
    /// `import x.y as z, foo.bar` is
    /// `Import::Import(vec![(vec![x, y], Some(z)), (vec![foo, bar], None)])`.
    Import { names: Vec<(Vec<Name>, Option<Name>)> },
}

#[derive(Clone, Debug, PartialEq, Eq, Hash)]
pub enum AugAssignOp {
    Add,
    Sub,
    Mult,
    MatMult,
    Div,
    Mod,
    BitAnd,
    BitOr,
    BitXor,
    Lshift,
    Rshift,
    Power,
    Floordiv,
}

#[derive(Debug, PartialEq)]
pub enum Statement {
    Pass,
    Del(Vec<Name>),
    Break,
    Continue,
    Return(Vec<Expression>),
    RaiseExcFrom(Expression, Expression),
    RaiseExc(Expression),
    Raise,
    Global(Vec<Name>),
    Nonlocal(Vec<Name>),
    Assert(Expression, Option<Expression>),
    Import(Import),
    Expressions(Vec<Expression>),
    /// `lhs = rhs1 = rhs2` -> `lhs, vec![rhs1, rhs2]`
    Assignment(Vec<Expression>, Vec<Vec<Expression>>),
    /// `lhs: type = rhs` -> `lhs, type, rhs`
    TypedAssignment(Vec<Expression>, Expression, Vec<Expression>),
    /// `lhs += rhs` -> `lhs, AugAssignOp::Add, rhs`
    AugmentedAssignment(Vec<Expression>, AugAssignOp, Vec<Expression>),
    Compound(Box<CompoundStatement>),
}

#[derive(Debug, PartialEq)]
pub struct Funcdef {
    pub is_async: bool,
    pub decorators: Vec<Decorator>,
    pub name: String,
    pub parameters: TypedArgsList,
    pub return_type: Option<Expression>,
    pub code: Vec<Statement>,
}

#[derive(Debug, PartialEq)]
pub struct Classdef {
    pub decorators: Vec<Decorator>,
    pub name: String,
    pub parameters: Arglist,
    pub code: Vec<Statement>,
}

#[derive(Debug, PartialEq)]
pub struct Try {
    pub try_block: Vec<Statement>,
    /// except `1 [as 2]: 3`
    pub except_clauses: Vec<(Expression, Option<Name>, Vec<Statement>)>,
    /// Empty iff no `except:` clause.
    pub last_except: Vec<Statement>,
    /// Empty iff no `else:` clause.
    pub else_block: Vec<Statement>,
    /// Empty iff no `finally:` clause.
    pub finally_block: Vec<Statement>,
}

#[derive(Debug, PartialEq)]
pub enum CompoundStatement {
    If(Vec<(Expression, Vec<Statement>)>, Option<Vec<Statement>>),
    For {
        is_async: bool,
        item: Vec<Expression>,
        iterator: Vec<Expression>,
        for_block: Vec<Statement>,
        else_block: Option<Vec<Statement>>,
    },
    While(Expression, Vec<Statement>, Option<Vec<Statement>>),
    With(Vec<(Expression, Option<Expression>)>, Vec<Statement>),
    Funcdef(Funcdef),
    Classdef(Classdef),
    Try(Try),
}

} // verus!
