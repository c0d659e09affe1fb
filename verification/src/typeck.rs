//! The type checker: walks the tree once, keeps a scope-aware symbol
//! table, assigns a type to every expression, and rejects ill-typed
//! programs with a single error.
//!
//! `check_expr_spec` is the mathematical statement of the typing
//! rules; the executable checker is proved to follow it exactly, both
//! in the result and in how the symbol table changes.

use vstd::prelude::*;

use crate::ast::AssignmentExpr;
use crate::ast::BinOpExpr;
use crate::ast::Expr;
use crate::ast::FunctionDef;
use crate::ast::IfExpr;
use crate::ast::ReassignmentExpr;
use crate::ast::RepExpr;
use crate::ast::UnOpExpr;
use crate::ast::Program;
use crate::ast::Type;
use crate::ast::TypeList;
use crate::ast::TypedIdentifier;
use crate::ast::clone_type;
use crate::ast::type_eq;
use crate::text::join3;
use crate::text::str_eq;

verus! {

/// The error taxonomy of the checker.
#[derive(Clone, Copy, PartialEq, Eq, Structural, Debug)]
pub enum TypeErrorKind {
    UndefinedVariable,
    TypeMismatch,
    UnsupportedOperator,
    UnknownOperator,
    InvalidCondition,
    InvalidLoopCount,
    UnsupportedConstruct,
}

/// A checking failure: its kind, and a human-readable message.
#[derive(Debug)]
pub struct TypeError {
    pub kind: TypeErrorKind,
    pub message: String,
}

/// A mapping from names to types. Entries are kept as a list in
/// insertion order, later entries shadowing earlier ones; the model is
/// the map this list folds to.
pub struct SymbolTable {
    entries: Vec<(String, Type)>,
}

/// The map a list of entries folds to, later entries winning.
pub open spec fn table_model(entries: Seq<(String, Type)>) -> Map<Seq<char>, Type>
    decreases entries,
{
    if entries.len() == 0 {
        Map::empty()
    } else {
        table_model(entries.drop_last()).insert(entries.last().0@, entries.last().1)
    }
}

/// The lookup a list of entries answers: the type of the latest entry
/// under the name, if any.
pub open spec fn seq_lookup(entries: Seq<(String, Type)>, name: Seq<char>) -> Option<Type>
    decreases entries,
{
    if entries.len() == 0 {
        None
    } else if entries.last().0@ == name {
        Some(entries.last().1)
    } else {
        seq_lookup(entries.drop_last(), name)
    }
}

/// The lookup of `name` in map `m`, as an option.
pub open spec fn map_lookup(m: Map<Seq<char>, Type>, name: Seq<char>) -> Option<Type> {
    if m.contains_key(name) {
        Some(m[name])
    } else {
        None
    }
}

/// List lookup and map lookup agree.
pub proof fn lemma_seq_lookup_is_map_lookup(entries: Seq<(String, Type)>, name: Seq<char>)
    ensures
        seq_lookup(entries, name) == map_lookup(table_model(entries), name),
    decreases entries,
{
    if entries.len() > 0 {
        lemma_seq_lookup_is_map_lookup(entries.drop_last(), name);
    }
}

impl SymbolTable {
    /// The map this table stands for.
    pub closed spec fn view(&self) -> Map<Seq<char>, Type> {
        table_model(self.entries@)
    }

    /// An empty table.
    pub fn new() -> (r: Self)
        ensures
            r@ == Map::<Seq<char>, Type>::empty(),
    {
        Self { entries: Vec::new() }
    }

    /// Binds `name` to `ty`, shadowing any earlier binding.
    pub fn insert(&mut self, name: String, ty: Type)
        ensures
            final(self)@ == old(self)@.insert(name@, ty),
    {
        let ghost before = self.entries@;
        self.entries.push((name, ty));
        proof {
            assert(self.entries@.drop_last() =~= before);
        }
    }

    /// The type bound to `name`, if any.
    pub fn lookup(&self, name: &str) -> (r: Option<Type>)
        ensures
            r == map_lookup(self@, name@),
    {
        proof {
            lemma_seq_lookup_is_map_lookup(self.entries@, name@);
            assert(self.entries@.take(self.entries@.len() as int) =~= self.entries@);
        }
        let mut i = self.entries.len();
        while i > 0
            invariant
                i <= self.entries.len(),
                seq_lookup(self.entries@, name@) == seq_lookup(
                    self.entries@.take(i as int),
                    name@,
                ),
            decreases i,
        {
            i = i - 1;
            let ghost prefix = self.entries@.take(i as int + 1);
            assert(prefix.last() == self.entries@[i as int]);
            if str_eq(self.entries[i].0.as_str(), name) {
                let cloned = clone_type(&self.entries[i].1);
                proof {
                    lemma_seq_lookup_is_map_lookup(self.entries@, name@);
                    assert(cloned == self.entries@[i as int].1);
                    assert(prefix.last().0@ == name@);
                    assert(seq_lookup(prefix, name@) == Some(prefix.last().1));
                    assert(seq_lookup(self.entries@, name@) == Some(self.entries@[i as int].1));
                    assert(map_lookup(self@, name@) == Some(self.entries@[i as int].1));
                }
                return Some(cloned);
            }
            proof {
                assert(prefix.drop_last() =~= self.entries@.take(i as int));
            }
        }
        assert(self.entries@.take(0) =~= Seq::<(String, Type)>::empty());
        None
    }
}

impl Clone for SymbolTable {
    /// A copy whose model is the same map.
    fn clone(&self) -> (r: Self)
        ensures
            r@ == self@,
    {
        let mut entries: Vec<(String, Type)> = Vec::new();
        let n = self.entries.len();
        let mut i: usize = 0;
        while i < n
            invariant
                i <= n,
                n == self.entries.len(),
                entries@ == self.entries@.take(i as int),
            decreases n - i,
        {
            let name = self.entries[i].0.clone();
            let ty = clone_type(&self.entries[i].1);
            entries.push((name, ty));
            proof {
                assert(entries@ =~= self.entries@.take(i as int + 1));
            }
            i = i + 1;
        }
        proof {
            assert(self.entries@.take(n as int) =~= self.entries@);
        }
        Self { entries }
    }
}

/// Whether `op` is one of the arithmetic operator tokens.
pub open spec fn is_arith_op(op: Seq<char>) -> bool {
    op == "+"@ || op == "-"@ || op == "*"@ || op == "/"@
}

/// Whether `op` is one of the comparison operator tokens.
pub open spec fn is_cmp_op(op: Seq<char>) -> bool {
    op == "=="@ || op == "!="@ || op == "<"@ || op == ">"@ || op == "<="@ || op == ">="@
}

/// The result type of a binary operation whose two operands both have
/// type `t`: arithmetic is defined over `Int` and `Float` and keeps
/// the operand type, comparison yields `Bool` for any operand type,
/// and any other token is unknown.
pub open spec fn binop_result(op: Seq<char>, t: Type) -> Result<Type, TypeErrorKind> {
    if is_arith_op(op) {
        if t == Type::Int || t == Type::Float {
            Ok(t)
        } else {
            Err(TypeErrorKind::UnsupportedOperator)
        }
    } else if is_cmp_op(op) {
        Ok(Type::Bool)
    } else {
        Err(TypeErrorKind::UnknownOperator)
    }
}

/// The result type of a unary operation on an operand of type `t`:
/// negation over `Int` and `Float` keeps the type, logical not needs
/// `Bool`, and any other token is unknown.
pub open spec fn unop_result(op: Seq<char>, t: Type) -> Result<Type, TypeErrorKind> {
    if op == "-"@ {
        if t == Type::Int || t == Type::Float {
            Ok(t)
        } else {
            Err(TypeErrorKind::UnsupportedOperator)
        }
    } else if op == "!"@ {
        if t == Type::Bool {
            Ok(Type::Bool)
        } else {
            Err(TypeErrorKind::UnsupportedOperator)
        }
    } else {
        Err(TypeErrorKind::UnknownOperator)
    }
}

/// What checking one expression yields: the expression's type or an
/// error kind, and the symbol table as checking left it.
pub struct ExprOutcome {
    pub result: Result<Type, TypeErrorKind>,
    pub table: Map<Seq<char>, Type>,
}

/// What checking a sequence of expressions yields.
pub struct SeqOutcome {
    pub result: Result<(), TypeErrorKind>,
    pub table: Map<Seq<char>, Type>,
}

/// What checking the elements of a list literal yields: the common
/// element type seen so far, or an error kind.
pub struct ListOutcome {
    pub result: Result<Option<Type>, TypeErrorKind>,
    pub table: Map<Seq<char>, Type>,
}

/// The table after binding every parameter, in order.
pub open spec fn insert_params(
    tbl: Map<Seq<char>, Type>,
    args: Seq<TypedIdentifier>,
) -> Map<Seq<char>, Type>
    decreases args,
{
    if args.len() == 0 {
        tbl
    } else {
        insert_params(
            tbl.insert(args[0].name@, args[0].associated_type),
            args.subrange(1, args.len() as int),
        )
    }
}

/// The parameter types of a function definition, as a type list.
pub open spec fn arg_types(args: Seq<TypedIdentifier>) -> TypeList
    decreases args,
{
    if args.len() == 0 {
        TypeList::Nil
    } else {
        TypeList::Cons(
            args[0].associated_type,
            Box::new(arg_types(args.subrange(1, args.len() as int))),
        )
    }
}

/// The typing rules, one arm per construct. Checking threads the
/// symbol table left to right through sub-expressions and stops at the
/// first error; the table the failed walk had reached is kept, exactly
/// as the executable checker keeps it.
pub open spec fn check_expr_spec(tbl: Map<Seq<char>, Type>, e: Expr) -> ExprOutcome
    decreases e, 0nat,
{
    match e {
        Expr::Integer(_) => ExprOutcome { result: Ok(Type::Int), table: tbl },
        Expr::Float(_) => ExprOutcome { result: Ok(Type::Float), table: tbl },
        Expr::Str(_) => ExprOutcome { result: Ok(Type::Str), table: tbl },
        Expr::Boolean(_) => ExprOutcome { result: Ok(Type::Bool), table: tbl },
        Expr::Identifier(name) => ExprOutcome {
            result: match map_lookup(tbl, name@) {
                Some(t) => Ok(t),
                None => Err(TypeErrorKind::UndefinedVariable),
            },
            table: tbl,
        },
        Expr::Assignment(a) => {
            let o = check_expr_spec(tbl, *a.value);
            match o.result {
                Err(k) => ExprOutcome { result: Err(k), table: o.table },
                Ok(vt) => {
                    if vt == a.target.associated_type {
                        ExprOutcome {
                            result: Ok(a.target.associated_type),
                            table: o.table.insert(a.target.name@, a.target.associated_type),
                        }
                    } else {
                        ExprOutcome { result: Err(TypeErrorKind::TypeMismatch), table: o.table }
                    }
                },
            }
        },
        Expr::Reassignment(re) => {
            let o = check_expr_spec(tbl, *re.value);
            match o.result {
                Err(k) => ExprOutcome { result: Err(k), table: o.table },
                Ok(vt) => match map_lookup(o.table, re.target@) {
                    None => ExprOutcome {
                        result: Err(TypeErrorKind::UndefinedVariable),
                        table: o.table,
                    },
                    Some(bound) => {
                        if bound == vt {
                            ExprOutcome { result: Ok(vt), table: o.table }
                        } else {
                            ExprOutcome {
                                result: Err(TypeErrorKind::TypeMismatch),
                                table: o.table,
                            }
                        }
                    },
                },
            }
        },
        Expr::BinOp(b) => {
            let ol = check_expr_spec(tbl, *b.left);
            match ol.result {
                Err(k) => ExprOutcome { result: Err(k), table: ol.table },
                Ok(lt) => {
                    let or = check_expr_spec(ol.table, *b.right);
                    match or.result {
                        Err(k) => ExprOutcome { result: Err(k), table: or.table },
                        Ok(rt) => {
                            if lt != rt {
                                ExprOutcome {
                                    result: Err(TypeErrorKind::TypeMismatch),
                                    table: or.table,
                                }
                            } else {
                                ExprOutcome { result: binop_result(b.op@, lt), table: or.table }
                            }
                        },
                    }
                },
            }
        },
        Expr::UnOp(u) => {
            let o = check_expr_spec(tbl, *u.arg);
            match o.result {
                Err(k) => ExprOutcome { result: Err(k), table: o.table },
                Ok(t) => ExprOutcome { result: unop_result(u.op@, t), table: o.table },
            }
        },
        Expr::ListLit(l) => {
            let o = check_list_spec(tbl, l.elems@, None);
            match o.result {
                Err(k) => ExprOutcome { result: Err(k), table: o.table },
                Ok(elem) => ExprOutcome {
                    result: Ok(
                        Type::List(
                            Box::new(
                                match elem {
                                    Some(t) => t,
                                    None => Type::NoneType,
                                },
                            ),
                        ),
                    ),
                    table: o.table,
                },
            }
        },
        Expr::Print(p) => {
            let o = check_expr_spec(tbl, *p.arg);
            match o.result {
                Err(k) => ExprOutcome { result: Err(k), table: o.table },
                Ok(_) => ExprOutcome { result: Ok(Type::NoneType), table: o.table },
            }
        },
        Expr::If(i) => {
            let oc = check_expr_spec(tbl, *i.condition);
            match oc.result {
                Err(k) => ExprOutcome { result: Err(k), table: oc.table },
                Ok(ct) => {
                    if ct != Type::Bool {
                        ExprOutcome {
                            result: Err(TypeErrorKind::InvalidCondition),
                            table: oc.table,
                        }
                    } else {
                        let ot = check_seq_spec(oc.table, i.then_block@);
                        match ot.result {
                            Err(k) => ExprOutcome { result: Err(k), table: ot.table },
                            Ok(_) => match i.else_block {
                                None => ExprOutcome {
                                    result: Ok(Type::NoneType),
                                    table: ot.table,
                                },
                                Some(es) => {
                                    let oe = check_seq_spec(ot.table, es@);
                                    match oe.result {
                                        Err(k) => ExprOutcome { result: Err(k), table: oe.table },
                                        Ok(_) => ExprOutcome {
                                            result: Ok(Type::NoneType),
                                            table: oe.table,
                                        },
                                    }
                                },
                            },
                        }
                    }
                },
            }
        },
        Expr::Rep(r) => {
            let oc = check_expr_spec(tbl, *r.num_iterations);
            match oc.result {
                Err(k) => ExprOutcome { result: Err(k), table: oc.table },
                Ok(ct) => {
                    if ct != Type::Int {
                        ExprOutcome {
                            result: Err(TypeErrorKind::InvalidLoopCount),
                            table: oc.table,
                        }
                    } else {
                        let ob = check_seq_spec(oc.table, r.body@);
                        match ob.result {
                            Err(k) => ExprOutcome { result: Err(k), table: ob.table },
                            Ok(_) => ExprOutcome { result: Ok(Type::NoneType), table: ob.table },
                        }
                    }
                },
            }
        },
        Expr::FunctionDef(f) => {
            let ob = check_seq_spec(insert_params(tbl, f.args@), f.body@);
            match ob.result {
                // on failure inside the body the enlarged table is
                // kept, exactly as the walk left it
                Err(k) => ExprOutcome { result: Err(k), table: ob.table },
                Ok(_) => ExprOutcome {
                    result: Ok(
                        Type::FunctionType(
                            Box::new(arg_types(f.args@)),
                            Box::new(Type::NoneType),
                        ),
                    ),
                    table: tbl,
                },
            }
        },
        Expr::Return(r) => check_expr_spec(tbl, *r.value),
        Expr::NoneLit => ExprOutcome { result: Ok(Type::NoneType), table: tbl },
        Expr::MethodCall(_) => ExprOutcome {
            result: Err(TypeErrorKind::UnsupportedConstruct),
            table: tbl,
        },
    }
}

/// Checks a sequence of expressions in order, stopping at the first
/// error.
pub open spec fn check_seq_spec(tbl: Map<Seq<char>, Type>, es: Seq<Expr>) -> SeqOutcome
    decreases es, 1nat,
{
    if es.len() == 0 {
        SeqOutcome { result: Ok(()), table: tbl }
    } else {
        let o = check_expr_spec(tbl, es[0]);
        match o.result {
            Err(k) => SeqOutcome { result: Err(k), table: o.table },
            Ok(_) => check_seq_spec(o.table, es.subrange(1, es.len() as int)),
        }
    }
}

/// Checks the elements of a list literal in order: every element must
/// check to the same type as the first, or the whole literal is a
/// mismatch.
pub open spec fn check_list_spec(
    tbl: Map<Seq<char>, Type>,
    es: Seq<Expr>,
    elem: Option<Type>,
) -> ListOutcome
    decreases es, 1nat,
{
    if es.len() == 0 {
        ListOutcome { result: Ok(elem), table: tbl }
    } else {
        let o = check_expr_spec(tbl, es[0]);
        match o.result {
            Err(k) => ListOutcome { result: Err(k), table: o.table },
            Ok(t) => match elem {
                Some(et) => {
                    if et != t {
                        ListOutcome { result: Err(TypeErrorKind::TypeMismatch), table: o.table }
                    } else {
                        check_list_spec(o.table, es.subrange(1, es.len() as int), elem)
                    }
                },
                None => check_list_spec(o.table, es.subrange(1, es.len() as int), Some(t)),
            },
        }
    }
}

/// An assignment whose value checks to a type other than the declared
/// one fails with a type mismatch, and the failing binding itself
/// mutates nothing: the table stays exactly as checking the value
/// sub-expression left it.
pub proof fn lemma_assignment_mismatch(tbl: Map<Seq<char>, Type>, a: AssignmentExpr)
    requires
        check_expr_spec(tbl, *a.value).result matches Ok(vt) && vt != a.target.associated_type,
    ensures
        check_expr_spec(tbl, Expr::Assignment(a)).result == Err::<Type, TypeErrorKind>(
            TypeErrorKind::TypeMismatch,
        ),
        check_expr_spec(tbl, Expr::Assignment(a)).table == check_expr_spec(tbl, *a.value).table,
{
}

/// A reassignment whose value checks to a type other than the bound
/// one fails with a type mismatch and mutates nothing further.
pub proof fn lemma_reassignment_mismatch(tbl: Map<Seq<char>, Type>, re: ReassignmentExpr)
    requires
        check_expr_spec(tbl, *re.value).result is Ok,
        check_expr_spec(tbl, *re.value).table.contains_key(re.target@),
        check_expr_spec(tbl, *re.value).table[re.target@] != check_expr_spec(
            tbl,
            *re.value,
        ).result->Ok_0,
    ensures
        check_expr_spec(tbl, Expr::Reassignment(re)).result == Err::<Type, TypeErrorKind>(
            TypeErrorKind::TypeMismatch,
        ),
        check_expr_spec(tbl, Expr::Reassignment(re)).table == check_expr_spec(
            tbl,
            *re.value,
        ).table,
{
}

/// A reassignment to a name that was never bound fails with
/// `UndefinedVariable` (the value sub-expression is checked first, so
/// "never bound" means absent even after that walk).
pub proof fn lemma_reassignment_unbound(tbl: Map<Seq<char>, Type>, re: ReassignmentExpr)
    requires
        check_expr_spec(tbl, *re.value).result is Ok,
        !check_expr_spec(tbl, *re.value).table.contains_key(re.target@),
    ensures
        check_expr_spec(tbl, Expr::Reassignment(re)).result == Err::<Type, TypeErrorKind>(
            TypeErrorKind::UndefinedVariable,
        ),
        check_expr_spec(tbl, Expr::Reassignment(re)).table == check_expr_spec(
            tbl,
            *re.value,
        ).table,
{
}

/// A binary operation whose operands check to different types fails
/// with a type mismatch and mutates nothing further.
pub proof fn lemma_binop_mismatch(tbl: Map<Seq<char>, Type>, b: BinOpExpr)
    requires
        check_expr_spec(tbl, *b.left).result is Ok,
        check_expr_spec(check_expr_spec(tbl, *b.left).table, *b.right).result is Ok,
        check_expr_spec(tbl, *b.left).result != check_expr_spec(
            check_expr_spec(tbl, *b.left).table,
            *b.right,
        ).result,
    ensures
        check_expr_spec(tbl, Expr::BinOp(b)).result == Err::<Type, TypeErrorKind>(
            TypeErrorKind::TypeMismatch,
        ),
        check_expr_spec(tbl, Expr::BinOp(b)).table == check_expr_spec(
            check_expr_spec(tbl, *b.left).table,
            *b.right,
        ).table,
{
}

/// A unary operation on an operand type its operator is not defined
/// for fails, and mutates nothing further. (In the checker taxonomy a
/// wrong operand type of a unary operator surfaces as
/// `UnsupportedOperator`, not `TypeMismatch`.)
pub proof fn lemma_unop_bad_operand(tbl: Map<Seq<char>, Type>, u: UnOpExpr)
    requires
        check_expr_spec(tbl, *u.arg).result matches Ok(t) && unop_result(u.op@, t) is Err,
    ensures
        check_expr_spec(tbl, Expr::UnOp(u)).result == Err::<Type, TypeErrorKind>(
            unop_result(u.op@, check_expr_spec(tbl, *u.arg).result->Ok_0)->Err_0,
        ),
        check_expr_spec(tbl, Expr::UnOp(u)).table == check_expr_spec(tbl, *u.arg).table,
{
}

/// A list element that checks to a type other than the one the
/// earlier elements established fails the whole literal with a type
/// mismatch, at that element, mutating nothing further.
pub proof fn lemma_list_element_mismatch(
    tbl: Map<Seq<char>, Type>,
    es: Seq<Expr>,
    elem: Option<Type>,
)
    requires
        es.len() > 0,
        check_expr_spec(tbl, es[0]).result is Ok,
        elem matches Some(et) && et != check_expr_spec(tbl, es[0]).result->Ok_0,
    ensures
        check_list_spec(tbl, es, elem).result == Err::<Option<Type>, TypeErrorKind>(
            TypeErrorKind::TypeMismatch,
        ),
        check_list_spec(tbl, es, elem).table == check_expr_spec(tbl, es[0]).table,
{
}

/// Function body bindings do not leak: when a function definition
/// checks, the table afterwards is exactly the table before it, so a
/// name bound only inside the body is still undefined after the
/// definition.
pub proof fn lemma_function_bindings_do_not_leak(
    tbl: Map<Seq<char>, Type>,
    f: FunctionDef,
    name: String,
)
    requires
        check_expr_spec(tbl, Expr::FunctionDef(f)).result is Ok,
        !tbl.contains_key(name@),
    ensures
        check_expr_spec(tbl, Expr::FunctionDef(f)).table == tbl,
        check_expr_spec(
            check_expr_spec(tbl, Expr::FunctionDef(f)).table,
            Expr::Identifier(name),
        ).result == Err::<Type, TypeErrorKind>(TypeErrorKind::UndefinedVariable),
{
}

/// Whether `t` is a numeric type.
fn is_numeric(t: &Type) -> (r: bool)
    ensures
        r == (*t == Type::Int || *t == Type::Float),
{
    match t {
        Type::Int => true,
        Type::Float => true,
        _ => false,
    }
}

/// The parameter types of `args`, from position `i` on, as a list.
fn build_arg_types(args: &Vec<TypedIdentifier>, i: usize) -> (r: TypeList)
    requires
        i <= args@.len(),
    ensures
        r == arg_types(args@.subrange(i as int, args@.len() as int)),
    decreases args@.len() - i,
{
    let ghost rest = args@.subrange(i as int, args@.len() as int);
    if i == args.len() {
        proof {
            assert(rest =~= Seq::<TypedIdentifier>::empty());
        }
        TypeList::Nil
    } else {
        let head = clone_type(&args[i].associated_type);
        let tail = build_arg_types(args, i + 1);
        proof {
            assert(rest[0] == args@[i as int]);
            assert(rest.subrange(1, rest.len() as int) =~= args@.subrange(
                i as int + 1,
                args@.len() as int,
            ));
        }
        TypeList::Cons(head, Box::new(tail))
    }
}

/// The type checker: a symbol table and the walk that fills it.
pub struct TypeChecker {
    pub symbol_table: SymbolTable,
}

impl TypeChecker {
    /// A checker with an empty symbol table.
    pub fn new() -> (r: Self)
        ensures
            r.symbol_table@ == Map::<Seq<char>, Type>::empty(),
    {
        TypeChecker { symbol_table: SymbolTable::new() }
    }

    /// Checks every top-level expression in order; the verdict and
    /// the final table are exactly what `check_seq_spec` says.
    pub fn check_program(&mut self, program: &Program) -> (r: Result<(), TypeError>)
        ensures
            ({
                let o = check_seq_spec(old(self).symbol_table@, program.expressions@);
                &&& final(self).symbol_table@ == o.table
                &&& match r {
                    Ok(u) => o.result == Ok::<(), TypeErrorKind>(u),
                    Err(e) => o.result == Err::<(), TypeErrorKind>(e.kind),
                }
            }),
    {
        self.check_exprs(&program.expressions)
    }

    /// Checks a sequence of expressions in order, stopping at the
    /// first error.
    fn check_exprs(&mut self, exprs: &Vec<Expr>) -> (r: Result<(), TypeError>)
        ensures
            ({
                let o = check_seq_spec(old(self).symbol_table@, exprs@);
                &&& final(self).symbol_table@ == o.table
                &&& match r {
                    Ok(u) => o.result == Ok::<(), TypeErrorKind>(u),
                    Err(e) => o.result == Err::<(), TypeErrorKind>(e.kind),
                }
            }),
        decreases exprs@, 1nat,
    {
        let ghost tbl0 = self.symbol_table@;
        let n = exprs.len();
        proof {
            assert(exprs@.subrange(0, n as int) =~= exprs@);
        }
        let mut i: usize = 0;
        while i < n
            invariant
                i <= n,
                n == exprs@.len(),
                tbl0 == old(self).symbol_table@,
                check_seq_spec(tbl0, exprs@) == check_seq_spec(
                    self.symbol_table@,
                    exprs@.subrange(i as int, n as int),
                ),
            decreases n - i,
        {
            let ghost rest = exprs@.subrange(i as int, n as int);
            proof {
                assert(rest[0] == exprs@[i as int]);
                assert(rest.subrange(1, rest.len() as int) =~= exprs@.subrange(
                    i as int + 1,
                    n as int,
                ));
            }
            match self.check_expr(&exprs[i]) {
                Ok(_) => {},
                Err(e) => {
                    return Err(e);
                },
            }
            i = i + 1;
        }
        proof {
            assert(exprs@.subrange(n as int, n as int) =~= Seq::<Expr>::empty());
        }
        Ok(())
    }

    /// Checks the elements of a list literal; the common element type
    /// comes back, exactly as `check_list_spec` says.
    fn check_list_elems(&mut self, elems: &Vec<Expr>) -> (r: Result<Option<Type>, TypeError>)
        ensures
            ({
                let o = check_list_spec(old(self).symbol_table@, elems@, None);
                &&& final(self).symbol_table@ == o.table
                &&& match r {
                    Ok(et) => o.result == Ok::<Option<Type>, TypeErrorKind>(et),
                    Err(e) => o.result == Err::<Option<Type>, TypeErrorKind>(e.kind),
                }
            }),
        decreases elems@, 1nat,
    {
        let ghost tbl0 = self.symbol_table@;
        let n = elems.len();
        proof {
            assert(elems@.subrange(0, n as int) =~= elems@);
        }
        let mut elem_type: Option<Type> = None;
        let mut i: usize = 0;
        while i < n
            invariant
                i <= n,
                n == elems@.len(),
                tbl0 == old(self).symbol_table@,
                check_list_spec(tbl0, elems@, None) == check_list_spec(
                    self.symbol_table@,
                    elems@.subrange(i as int, n as int),
                    elem_type,
                ),
            decreases n - i,
        {
            let ghost rest = elems@.subrange(i as int, n as int);
            proof {
                assert(rest[0] == elems@[i as int]);
                assert(rest.subrange(1, rest.len() as int) =~= elems@.subrange(
                    i as int + 1,
                    n as int,
                ));
            }
            let t = match self.check_expr(&elems[i]) {
                Ok(t) => t,
                Err(e) => {
                    return Err(e);
                },
            };
            match &elem_type {
                Some(et) => {
                    if !type_eq(et, &t) {
                        return Err(TypeError {
                            kind: TypeErrorKind::TypeMismatch,
                            message: "List elements have mismatched types".to_owned(),
                        });
                    }
                },
                None => {
                    elem_type = Some(t);
                },
            }
            i = i + 1;
        }
        proof {
            assert(elems@.subrange(n as int, n as int) =~= Seq::<Expr>::empty());
        }
        Ok(elem_type)
    }

    /// Checks one expression: assigns it a type or reports the first
    /// error, mutating the symbol table exactly as `check_expr_spec`
    /// says.
    /// Checks one expression: assigns it a type or reports the first
    /// error, mutating the symbol table exactly as `check_expr_spec`
    /// says.
    pub fn check_expr(&mut self, expr: &Expr) -> (r: Result<Type, TypeError>)
        ensures
            ({
                let o = check_expr_spec(old(self).symbol_table@, *expr);
                &&& final(self).symbol_table@ == o.table
                &&& match r {
                    Ok(t) => o.result == Ok::<Type, TypeErrorKind>(t),
                    Err(e) => o.result == Err::<Type, TypeErrorKind>(e.kind),
                }
            }),
        decreases *expr, 0nat,
    {
        match expr {
            Expr::Integer(_) => Ok(Type::Int),
            Expr::Float(_) => Ok(Type::Float),
            Expr::Str(_) => Ok(Type::Str),
            Expr::Boolean(_) => Ok(Type::Bool),
            Expr::Identifier(name) => match self.symbol_table.lookup(name.as_str()) {
                Some(t) => Ok(t),
                None => Err(TypeError {
                    kind: TypeErrorKind::UndefinedVariable,
                    message: join3("Undefined variable '", name.as_str(), "'"),
                }),
            },
            Expr::Assignment(a) => self.check_assignment(a),
            Expr::Reassignment(re) => self.check_reassignment(re),
            Expr::BinOp(b) => self.check_binop(b),
            Expr::UnOp(u) => self.check_unop(u),
            Expr::ListLit(l) => {
                let elem = match self.check_list_elems(&l.elems) {
                    Ok(et) => et,
                    Err(e) => {
                        return Err(e);
                    },
                };
                let inner = match elem {
                    Some(t) => t,
                    None => Type::NoneType,
                };
                Ok(Type::List(Box::new(inner)))
            },
            Expr::Print(p) => {
                match self.check_expr(&p.arg) {
                    Ok(_) => Ok(Type::NoneType),
                    Err(e) => Err(e),
                }
            },
            Expr::If(i) => self.check_if(i),
            Expr::Rep(rep) => self.check_rep(rep),
            Expr::FunctionDef(f) => self.check_function_def(f),
            Expr::Return(ret) => self.check_expr(&ret.value),
            Expr::NoneLit => Ok(Type::NoneType),
            Expr::MethodCall(_) => Err(TypeError {
                kind: TypeErrorKind::UnsupportedConstruct,
                message: "Method calls not supported in type checker yet".to_owned(),
            }),
        }
    }

    /// Checks an assignment: the value must have exactly the declared
    /// type, and only then is the name bound.
    fn check_assignment(&mut self, a: &AssignmentExpr) -> (r: Result<Type, TypeError>)
        ensures
            ({
                let o = check_expr_spec(old(self).symbol_table@, Expr::Assignment(*a));
                &&& final(self).symbol_table@ == o.table
                &&& match r {
                    Ok(t) => o.result == Ok::<Type, TypeErrorKind>(t),
                    Err(e) => o.result == Err::<Type, TypeErrorKind>(e.kind),
                }
            }),
        decreases *a, 1nat,
    {
        let vt = match self.check_expr(&a.value) {
            Ok(t) => t,
            Err(e) => {
                return Err(e);
            },
        };
        if !type_eq(&vt, &a.target.associated_type) {
            return Err(TypeError {
                kind: TypeErrorKind::TypeMismatch,
                message: join3("Type mismatch in assignment to '", a.target.name.as_str(), "'"),
            });
        }
        let declared = clone_type(&a.target.associated_type);
        self.symbol_table.insert(a.target.name.clone(), declared);
        Ok(clone_type(&a.target.associated_type))
    }

    /// Checks a reassignment: the name must already be bound, to the
    /// same type the new value has.
    fn check_reassignment(&mut self, re: &ReassignmentExpr) -> (r: Result<Type, TypeError>)
        ensures
            ({
                let o = check_expr_spec(old(self).symbol_table@, Expr::Reassignment(*re));
                &&& final(self).symbol_table@ == o.table
                &&& match r {
                    Ok(t) => o.result == Ok::<Type, TypeErrorKind>(t),
                    Err(e) => o.result == Err::<Type, TypeErrorKind>(e.kind),
                }
            }),
        decreases *re, 1nat,
    {
        let vt = match self.check_expr(&re.value) {
            Ok(t) => t,
            Err(e) => {
                return Err(e);
            },
        };
        let bound = match self.symbol_table.lookup(re.target.as_str()) {
            Some(t) => t,
            None => {
                return Err(TypeError {
                    kind: TypeErrorKind::UndefinedVariable,
                    message: join3("Undefined variable '", re.target.as_str(), "'"),
                });
            },
        };
        if !type_eq(&bound, &vt) {
            return Err(TypeError {
                kind: TypeErrorKind::TypeMismatch,
                message: join3("Type mismatch in reassignment to '", re.target.as_str(), "'"),
            });
        }
        Ok(vt)
    }

    /// Checks a binary operation: equal operand types, and an operator
    /// defined for them.
    fn check_binop(&mut self, b: &BinOpExpr) -> (r: Result<Type, TypeError>)
        ensures
            ({
                let o = check_expr_spec(old(self).symbol_table@, Expr::BinOp(*b));
                &&& final(self).symbol_table@ == o.table
                &&& match r {
                    Ok(t) => o.result == Ok::<Type, TypeErrorKind>(t),
                    Err(e) => o.result == Err::<Type, TypeErrorKind>(e.kind),
                }
            }),
        decreases *b, 1nat,
    {
        let lt = match self.check_expr(&b.left) {
            Ok(t) => t,
            Err(e) => {
                return Err(e);
            },
        };
        let rt = match self.check_expr(&b.right) {
            Ok(t) => t,
            Err(e) => {
                return Err(e);
            },
        };
        if !type_eq(&lt, &rt) {
            return Err(TypeError {
                kind: TypeErrorKind::TypeMismatch,
                message: join3("Type mismatch in binary operation '", b.op.as_str(), "'"),
            });
        }
        let op = b.op.as_str();
        if str_eq(op, "+") || str_eq(op, "-") || str_eq(op, "*") || str_eq(op, "/") {
            if is_numeric(&lt) {
                Ok(lt)
            } else {
                Err(TypeError {
                    kind: TypeErrorKind::UnsupportedOperator,
                    message: join3("Operator '", op, "' not supported for this operand type"),
                })
            }
        } else if str_eq(op, "==") || str_eq(op, "!=") || str_eq(op, "<") || str_eq(op, ">")
            || str_eq(op, "<=") || str_eq(op, ">=") {
            Ok(Type::Bool)
        } else {
            Err(TypeError {
                kind: TypeErrorKind::UnknownOperator,
                message: join3("Unknown operator '", op, "'"),
            })
        }
    }

    /// Checks a unary operation: an operator defined for the operand
    /// type.
    fn check_unop(&mut self, u: &UnOpExpr) -> (r: Result<Type, TypeError>)
        ensures
            ({
                let o = check_expr_spec(old(self).symbol_table@, Expr::UnOp(*u));
                &&& final(self).symbol_table@ == o.table
                &&& match r {
                    Ok(t) => o.result == Ok::<Type, TypeErrorKind>(t),
                    Err(e) => o.result == Err::<Type, TypeErrorKind>(e.kind),
                }
            }),
        decreases *u, 1nat,
    {
        let t = match self.check_expr(&u.arg) {
            Ok(t) => t,
            Err(e) => {
                return Err(e);
            },
        };
        let op = u.op.as_str();
        if str_eq(op, "-") {
            if is_numeric(&t) {
                Ok(t)
            } else {
                Err(TypeError {
                    kind: TypeErrorKind::UnsupportedOperator,
                    message: "Unary '-' not supported for this operand type".to_owned(),
                })
            }
        } else if str_eq(op, "!") {
            match t {
                Type::Bool => Ok(Type::Bool),
                _ => Err(TypeError {
                    kind: TypeErrorKind::UnsupportedOperator,
                    message: "Unary '!' not supported for this operand type".to_owned(),
                }),
            }
        } else {
            Err(TypeError {
                kind: TypeErrorKind::UnknownOperator,
                message: join3("Unknown unary operator '", op, "'"),
            })
        }
    }

    /// Checks a conditional: a boolean condition, then both branch
    /// sequences; the construct itself has no type.
    fn check_if(&mut self, i: &IfExpr) -> (r: Result<Type, TypeError>)
        ensures
            ({
                let o = check_expr_spec(old(self).symbol_table@, Expr::If(*i));
                &&& final(self).symbol_table@ == o.table
                &&& match r {
                    Ok(t) => o.result == Ok::<Type, TypeErrorKind>(t),
                    Err(e) => o.result == Err::<Type, TypeErrorKind>(e.kind),
                }
            }),
        decreases *i, 1nat,
    {
        let ct = match self.check_expr(&i.condition) {
            Ok(t) => t,
            Err(e) => {
                return Err(e);
            },
        };
        match ct {
            Type::Bool => {},
            _ => {
                return Err(TypeError {
                    kind: TypeErrorKind::InvalidCondition,
                    message: "Condition in if expression must be boolean".to_owned(),
                });
            },
        }
        match self.check_exprs(&i.then_block) {
            Ok(_) => {},
            Err(e) => {
                return Err(e);
            },
        }
        match &i.else_block {
            Some(es) => match self.check_exprs(es) {
                Ok(_) => Ok(Type::NoneType),
                Err(e) => Err(e),
            },
            None => Ok(Type::NoneType),
        }
    }

    /// Checks a counted loop: an integer count, then the body; the
    /// construct itself has no type.
    fn check_rep(&mut self, rep: &RepExpr) -> (r: Result<Type, TypeError>)
        ensures
            ({
                let o = check_expr_spec(old(self).symbol_table@, Expr::Rep(*rep));
                &&& final(self).symbol_table@ == o.table
                &&& match r {
                    Ok(t) => o.result == Ok::<Type, TypeErrorKind>(t),
                    Err(e) => o.result == Err::<Type, TypeErrorKind>(e.kind),
                }
            }),
        decreases *rep, 1nat,
    {
        let ct = match self.check_expr(&rep.num_iterations) {
            Ok(t) => t,
            Err(e) => {
                return Err(e);
            },
        };
        match ct {
            Type::Int => {},
            _ => {
                return Err(TypeError {
                    kind: TypeErrorKind::InvalidLoopCount,
                    message: "rep count must be int".to_owned(),
                });
            },
        }
        match self.check_exprs(&rep.body) {
            Ok(_) => Ok(Type::NoneType),
            Err(e) => Err(e),
        }
    }

    /// Checks a function definition: parameters are bound under a
    /// snapshot of the table that is restored when the body checks,
    /// so function-local bindings do not leak.
    fn check_function_def(&mut self, f: &FunctionDef) -> (r: Result<Type, TypeError>)
        ensures
            ({
                let o = check_expr_spec(old(self).symbol_table@, Expr::FunctionDef(*f));
                &&& final(self).symbol_table@ == o.table
                &&& match r {
                    Ok(t) => o.result == Ok::<Type, TypeErrorKind>(t),
                    Err(e) => o.result == Err::<Type, TypeErrorKind>(e.kind),
                }
            }),
        decreases *f, 1nat,
    {
        let ghost tbl0 = self.symbol_table@;
        let snapshot = self.symbol_table.clone();
        let n = f.args.len();
        proof {
            assert(f.args@.subrange(0, n as int) =~= f.args@);
        }
        let mut j: usize = 0;
        while j < n
            invariant
                j <= n,
                n == f.args@.len(),
                tbl0 == old(self).symbol_table@,
                insert_params(tbl0, f.args@) == insert_params(
                    self.symbol_table@,
                    f.args@.subrange(j as int, n as int),
                ),
            decreases n - j,
        {
            let ghost rest = f.args@.subrange(j as int, n as int);
            proof {
                assert(rest[0] == f.args@[j as int]);
                assert(rest.subrange(1, rest.len() as int) =~= f.args@.subrange(
                    j as int + 1,
                    n as int,
                ));
            }
            let ty = clone_type(&f.args[j].associated_type);
            self.symbol_table.insert(f.args[j].name.clone(), ty);
            j = j + 1;
        }
        proof {
            assert(f.args@.subrange(n as int, n as int) =~= Seq::<TypedIdentifier>::empty());
        }
        match self.check_exprs(&f.body) {
            Ok(_) => {},
            Err(e) => {
                return Err(e);
            },
        }
        self.symbol_table = snapshot;
        let params = build_arg_types(&f.args, 0);
        proof {
            assert(f.args@.subrange(0, f.args@.len() as int) =~= f.args@);
        }
        Ok(Type::FunctionType(Box::new(params), Box::new(Type::NoneType)))
    }
}

} // verus!
