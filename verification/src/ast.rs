//! The abstract syntax tree of the source language, and its types.
//!
//! A `Program` is an ordered sequence of top-level expressions; an
//! external parser produces it. The tree is immutable: the checker and
//! the generator only walk it.

use vstd::prelude::*;

verus! {

/// A source-language type.
///
/// Parameter lists of `Tuple` and `FunctionType` are kept as a linked
/// `TypeList` so that equality of two `Type` values in specifications
/// is plain structural equality.
#[derive(Debug)]
pub enum Type {
    Int,
    Float,
    Str,
    Bool,
    NoneType,
    /// A homogeneous list; the box holds the element type.
    List(Box<Type>),
    /// A tuple of element types; representable, but never produced by
    /// the checker and not lowered by the generator.
    Tuple(Box<TypeList>),
    /// A function type: parameter types and return type.
    FunctionType(Box<TypeList>, Box<Type>),
}

/// A linked list of types, used inside `Type`.
#[derive(Debug)]
pub enum TypeList {
    Nil,
    Cons(Type, Box<TypeList>),
}

impl TypeList {
    /// The sequence of types this list holds.
    pub open spec fn seq(self) -> Seq<Type>
        decreases self,
    {
        match self {
            TypeList::Nil => Seq::empty(),
            TypeList::Cons(head, tail) => seq![head] + tail.seq(),
        }
    }
}

/// Copies a type; the copy equals the original.
pub fn clone_type(t: &Type) -> (r: Type)
    ensures
        r == *t,
    decreases *t,
{
    match t {
        Type::Int => Type::Int,
        Type::Float => Type::Float,
        Type::Str => Type::Str,
        Type::Bool => Type::Bool,
        Type::NoneType => Type::NoneType,
        Type::List(elem) => Type::List(Box::new(clone_type(elem))),
        Type::Tuple(elems) => Type::Tuple(Box::new(clone_type_list(elems))),
        Type::FunctionType(params, ret) => Type::FunctionType(
            Box::new(clone_type_list(params)),
            Box::new(clone_type(ret)),
        ),
    }
}

/// Copies a type list; the copy equals the original.
pub fn clone_type_list(ts: &TypeList) -> (r: TypeList)
    ensures
        r == *ts,
    decreases *ts,
{
    match ts {
        TypeList::Nil => TypeList::Nil,
        TypeList::Cons(head, tail) => TypeList::Cons(
            clone_type(head),
            Box::new(clone_type_list(tail)),
        ),
    }
}

/// Decides structural equality of two types.
pub fn type_eq(a: &Type, b: &Type) -> (r: bool)
    ensures
        r == (*a == *b),
    decreases *a,
{
    match (a, b) {
        (Type::Int, Type::Int) => true,
        (Type::Float, Type::Float) => true,
        (Type::Str, Type::Str) => true,
        (Type::Bool, Type::Bool) => true,
        (Type::NoneType, Type::NoneType) => true,
        (Type::List(x), Type::List(y)) => type_eq(x, y),
        (Type::Tuple(xs), Type::Tuple(ys)) => type_list_eq(xs, ys),
        (Type::FunctionType(ps, pr), Type::FunctionType(qs, qr)) => {
            type_list_eq(ps, qs) && type_eq(pr, qr)
        },
        _ => false,
    }
}

/// Decides structural equality of two type lists.
pub fn type_list_eq(a: &TypeList, b: &TypeList) -> (r: bool)
    ensures
        r == (*a == *b),
    decreases *a,
{
    match (a, b) {
        (TypeList::Nil, TypeList::Nil) => true,
        (TypeList::Cons(x, xs), TypeList::Cons(y, ys)) => type_eq(x, y) && type_list_eq(xs, ys),
        _ => false,
    }
}

/// A name paired with its declared type, used at binding sites.
pub struct TypedIdentifier {
    pub name: String,
    pub associated_type: Type,
}

/// Binds a new name, with a declared type and a const-ness flag, to
/// the value of a sub-expression.
pub struct AssignmentExpr {
    pub target: TypedIdentifier,
    pub value: Box<Expr>,
    pub const_var: bool,
}

/// Rebinds an already bound name to a new value.
pub struct ReassignmentExpr {
    pub target: String,
    pub value: Box<Expr>,
}

/// A binary operation; the operator is carried as its source token.
pub struct BinOpExpr {
    pub op: String,
    pub left: Box<Expr>,
    pub right: Box<Expr>,
}

/// A unary operation; the operator is carried as its source token.
pub struct UnOpExpr {
    pub op: String,
    pub arg: Box<Expr>,
}

/// An ordered, type-homogeneous list literal.
pub struct ListExpr {
    pub elems: Vec<Expr>,
}

/// A conditional with a then sequence and an optional else sequence.
pub struct IfExpr {
    pub condition: Box<Expr>,
    pub then_block: Vec<Expr>,
    pub else_block: Option<Vec<Expr>>,
}

/// A counted loop: the body runs `num_iterations` times, with no
/// accessible loop variable.
pub struct RepExpr {
    pub num_iterations: Box<Expr>,
    pub body: Vec<Expr>,
}

/// Emits the value of its argument to standard output.
pub struct PrintExpr {
    pub arg: Box<Expr>,
}

/// A named function with typed parameters and a body sequence.
pub struct FunctionDef {
    pub name: String,
    pub args: Vec<TypedIdentifier>,
    pub body: Vec<Expr>,
}

/// Returns the value of an expression from a function body.
pub struct ReturnExpr {
    pub value: Box<Expr>,
}

/// A method call; not supported by the checker or the generator.
pub struct MethodCallExpr {
    pub name: String,
    pub args: Vec<Expr>,
}

/// One expression of the source language.
pub enum Expr {
    Integer(i128),
    /// A float literal, carried as its source text (for example
    /// `"1.5"`); the generator re-emits the text verbatim.
    Float(String),
    Str(String),
    Boolean(bool),
    Identifier(String),
    Assignment(AssignmentExpr),
    Reassignment(ReassignmentExpr),
    BinOp(BinOpExpr),
    UnOp(UnOpExpr),
    ListLit(ListExpr),
    If(IfExpr),
    Rep(RepExpr),
    Print(PrintExpr),
    FunctionDef(FunctionDef),
    Return(ReturnExpr),
    MethodCall(MethodCallExpr),
    NoneLit,
}

/// A whole program: its top-level expressions in order.
pub struct Program {
    pub expressions: Vec<Expr>,
}

} // verus!
