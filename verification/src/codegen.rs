//! The code generator: walks a checkable tree and lowers it to a
//! block tree for the assembler, plus the fixed program wrapper.
//!
//! A construct either lowers to an inline C++ value expression
//! (`val_text`: literals, identifiers, operations, list literals) or
//! is emitted as statements appended to the current block
//! (`gen_stmt`: bindings, control flow, print, function definitions).
//! A statement-form construct found where a value is needed, and any
//! construct without a lowering rule, surfaces a structured error
//! instead of aborting.
//!
//! Fresh loop-counter names come from a counter owned by one
//! `Generator`, so distinct generation runs are independent.

use vstd::prelude::*;

use crate::ast::AssignmentExpr;
use crate::ast::BinOpExpr;
use crate::ast::Expr;
use crate::ast::FunctionDef;
use crate::ast::IfExpr;
use crate::ast::ListExpr;
use crate::ast::PrintExpr;
use crate::ast::ReassignmentExpr;
use crate::ast::RepExpr;
use crate::ast::Type;
use crate::ast::TypedIdentifier;
use crate::ast::UnOpExpr;
use crate::blocks::Block;
use crate::blocks::BlockModel;
use crate::blocks::LineModel;
use crate::blocks::Program;
use crate::blocks::block_depth_ok;
use crate::blocks::brace_free;
use crate::blocks::braces_balanced;
use crate::blocks::count_char;
use crate::blocks::lemma_brace_free;
use crate::blocks::lemma_count_char_add;
use crate::blocks::lemma_count_char_zero;
use crate::blocks::lemma_lines_depth_ok_add;
use crate::blocks::lemma_lines_texts_balanced_add;
use crate::blocks::lemma_render_block_balanced;
use crate::blocks::line_depth_ok;
use crate::blocks::line_texts_balanced;
use crate::blocks::lines_depth_ok;
use crate::blocks::lines_texts_balanced;
use crate::blocks::program_text;
use crate::blocks::render_block;
use crate::text::digit_char;
use crate::text::dec_digits;
use crate::text::int_literal;
use crate::text::join3;
use crate::text::lemma_dec_digits_injective;
use crate::text::push_decimal;
use crate::text::push_int;

verus! {

/// The error taxonomy of the generator.
#[derive(Clone, Copy, PartialEq, Eq, Structural, Debug)]
pub enum GenErrorKind {
    /// A construct with no lowering rule: return expressions, method
    /// calls, none literals, and tuple-typed bindings.
    UnsupportedConstruct,
    /// A statement-form construct found where an inline value was
    /// needed.
    StatementInValuePosition,
}

/// A generation failure: its kind, and a message naming the construct.
#[derive(Debug)]
pub struct GenError {
    pub kind: GenErrorKind,
    pub message: String,
}

/// Whether the type has a C++ spelling (tuples have none).
pub open spec fn type_text_ok(t: Type) -> bool
    decreases t,
{
    match t {
        Type::List(elem) => type_text_ok(*elem),
        Type::Tuple(_) => false,
        _ => true,
    }
}

/// The C++ spelling of a type.
pub open spec fn type_text(t: Type) -> Seq<char>
    decreases t,
{
    match t {
        Type::Int => "int"@,
        Type::Float => "float"@,
        Type::Str => "string"@,
        Type::Bool => "bool"@,
        Type::NoneType => "none"@,
        Type::List(elem) => "vector<"@ + type_text(*elem) + ">"@,
        Type::Tuple(_) => Seq::empty(),
        Type::FunctionType(_, _) => "auto"@,
    }
}

/// The fresh name minted for counter value `n`.
pub open spec fn fresh_name(n: nat) -> Seq<char> {
    "var_"@ + dec_digits(n)
}

/// Fresh-name generation within one run never repeats a minted name:
/// the generator mints `fresh_name` of a counter it only ever
/// increments, and distinct counter values give distinct names.
pub proof fn lemma_fresh_names_distinct(i: nat, j: nat)
    requires
        i != j,
    ensures
        fresh_name(i) != fresh_name(j),
{
    if fresh_name(i) == fresh_name(j) {
        reveal_strlit("var_");
        assert(dec_digits(i) =~= fresh_name(i).skip(4));
        assert(dec_digits(j) =~= fresh_name(j).skip(4));
        lemma_dec_digits_injective(i, j);
    }
}

/// The inline C++ value text of an expression, or the error that
/// value lowering surfaces: statement forms have no value, and
/// unsupported constructs have no lowering at all.
pub open spec fn val_text(e: Expr) -> Result<Seq<char>, GenErrorKind>
    decreases e, 0nat, 0nat,
{
    match e {
        Expr::Integer(i) => Ok(int_literal(i as int) + "LL"@),
        Expr::Float(s) => Ok(s@ + "LL"@),
        Expr::Str(s) => Ok("\""@ + s@ + "\""@),
        Expr::Boolean(b) => Ok(if b {
            "true"@
        } else {
            "false"@
        }),
        Expr::Identifier(n) => Ok(n@),
        Expr::BinOp(b) => match val_text(*b.left) {
            Err(k) => Err(k),
            Ok(lt) => match val_text(*b.right) {
                Err(k) => Err(k),
                Ok(rt) => Ok(lt + " "@ + b.op@ + " "@ + rt),
            },
        },
        Expr::UnOp(u) => match val_text(*u.arg) {
            Err(k) => Err(k),
            Ok(at) => Ok(u.op@ + "("@ + at + ")"@),
        },
        Expr::ListLit(l) => match val_texts(l.elems@) {
            Err(k) => Err(k),
            Ok(items) => Ok("vector {"@ + items + "}"@),
        },
        Expr::Return(_) => Err(GenErrorKind::UnsupportedConstruct),
        Expr::MethodCall(_) => Err(GenErrorKind::UnsupportedConstruct),
        Expr::NoneLit => Err(GenErrorKind::UnsupportedConstruct),
        _ => Err(GenErrorKind::StatementInValuePosition),
    }
}

/// The inline value texts of a sequence, joined with `", "`, stopping
/// at the first element that has no value.
pub open spec fn val_texts(es: Seq<Expr>) -> Result<Seq<char>, GenErrorKind>
    decreases es, 1nat, 0nat,
{
    if es.len() == 0 {
        Ok(Seq::empty())
    } else {
        match val_text(es[0]) {
            Err(k) => Err(k),
            Ok(t0) => {
                if es.len() == 1 {
                    Ok(t0)
                } else {
                    match val_texts(es.subrange(1, es.len() as int)) {
                        Err(k) => Err(k),
                        Ok(rest) => Ok(t0 + ", "@ + rest),
                    }
                }
            },
        }
    }
}

/// The declaration statement an assignment lowers to, or why it
/// cannot be lowered.
pub open spec fn assign_stmt(a: AssignmentExpr) -> Result<Seq<char>, GenErrorKind> {
    match val_text(*a.value) {
        Err(k) => Err(k),
        Ok(v) => {
            if type_text_ok(a.target.associated_type) {
                Ok(
                    (if a.const_var {
                        "const "@
                    } else {
                        Seq::empty()
                    }) + type_text(a.target.associated_type) + " "@ + a.target.name@ + " = "@ + v
                        + ";"@,
                )
            } else {
                Err(GenErrorKind::UnsupportedConstruct)
            }
        },
    }
}

/// The assignment statement a reassignment lowers to.
pub open spec fn reassign_stmt(re: ReassignmentExpr) -> Result<Seq<char>, GenErrorKind> {
    match val_text(*re.value) {
        Err(k) => Err(k),
        Ok(v) => Ok(re.target@ + " = "@ + v + ";"@),
    }
}

/// The output statement a print lowers to.
pub open spec fn print_stmt(p: PrintExpr) -> Result<Seq<char>, GenErrorKind> {
    match val_text(*p.arg) {
        Err(k) => Err(k),
        Ok(v) => Ok("cout << "@ + v + " << '\\n';"@),
    }
}

/// The loop header of a counted loop with counter name `name` and
/// bound text `count`.
pub open spec fn rep_header(name: Seq<char>, count: Seq<char>) -> Seq<char> {
    "for (int "@ + name + " = 0; "@ + name + " < "@ + count + "; "@ + name + "++) "@
}

/// The parameter list of a function definition, `", "`-joined, or the
/// error for a parameter type with no C++ spelling.
pub open spec fn params_text(args: Seq<TypedIdentifier>) -> Result<Seq<char>, GenErrorKind>
    decreases args,
{
    if args.len() == 0 {
        Ok(Seq::empty())
    } else if !type_text_ok(args[0].associated_type) {
        Err(GenErrorKind::UnsupportedConstruct)
    } else {
        let t0 = type_text(args[0].associated_type) + " "@ + args[0].name@;
        if args.len() == 1 {
            Ok(t0)
        } else {
            match params_text(args.subrange(1, args.len() as int)) {
                Err(k) => Err(k),
                Ok(rest) => Ok(t0 + ", "@ + rest),
            }
        }
    }
}

/// The closure header of a function definition.
pub open spec fn function_header(name: Seq<char>, params: Seq<char>) -> Seq<char> {
    "auto "@ + name + " = [&]("@ + params + ") -> auto "@
}

/// How many fresh names lowering a construct can mint.
pub open spec fn mint_count(e: Expr) -> nat
    decreases e, 0nat,
{
    match e {
        Expr::If(i) => mints_seq(i.then_block@) + (match i.else_block {
            Some(es) => mints_seq(es@),
            None => 0nat,
        }),
        Expr::Rep(r) => 1 + mints_seq(r.body@),
        Expr::FunctionDef(f) => mints_seq(f.body@),
        _ => 0nat,
    }
}

/// How many fresh names lowering a sequence can mint.
pub open spec fn mints_seq(es: Seq<Expr>) -> nat
    decreases es, 1nat,
{
    if es.len() == 0 {
        0nat
    } else {
        mint_count(es[0]) + mints_seq(es.subrange(1, es.len() as int))
    }
}

/// How deeply a construct nests blocks below its own.
pub open spec fn expr_depth(e: Expr) -> nat
    decreases e, 0nat,
{
    match e {
        Expr::If(i) => 1 + seq_depth(i.then_block@) + (match i.else_block {
            Some(es) => seq_depth(es@),
            None => 0nat,
        }),
        Expr::Rep(r) => 1 + seq_depth(r.body@),
        Expr::FunctionDef(f) => 1 + seq_depth(f.body@),
        _ => 0nat,
    }
}

/// How deeply a sequence nests blocks below the enclosing one.
pub open spec fn seq_depth(es: Seq<Expr>) -> nat
    decreases es, 1nat,
{
    if es.len() == 0 {
        0nat
    } else {
        expr_depth(es[0]) + seq_depth(es.subrange(1, es.len() as int))
    }
}

/// What lowering one construct at statement level does: the verdict,
/// the lines appended to the enclosing block (none on failure), and
/// the counter after the attempt.
pub struct GenOutcome {
    pub result: Result<(), GenErrorKind>,
    pub lines: Seq<LineModel>,
    pub counter: nat,
}

/// The statement-level lowering rules, one arm per construct.
/// `indent` is the enclosing block's depth; nested blocks sit one
/// deeper. Value forms at statement level emit nothing. A failing
/// construct appends nothing, but keeps the counter the failed walk
/// had reached, so fresh names are never reused.
pub open spec fn gen_stmt(ctr: nat, indent: nat, e: Expr) -> GenOutcome
    decreases e, 2nat, 0nat,
{
    match e {
        Expr::Assignment(a) => match assign_stmt(a) {
            Err(k) => GenOutcome { result: Err(k), lines: Seq::empty(), counter: ctr },
            Ok(t) => GenOutcome {
                result: Ok(()),
                lines: seq![LineModel::Statement(t)],
                counter: ctr,
            },
        },
        Expr::Reassignment(re) => match reassign_stmt(re) {
            Err(k) => GenOutcome { result: Err(k), lines: Seq::empty(), counter: ctr },
            Ok(t) => GenOutcome {
                result: Ok(()),
                lines: seq![LineModel::Statement(t)],
                counter: ctr,
            },
        },
        Expr::Print(p) => match print_stmt(p) {
            Err(k) => GenOutcome { result: Err(k), lines: Seq::empty(), counter: ctr },
            Ok(t) => GenOutcome {
                result: Ok(()),
                lines: seq![LineModel::Statement(t)],
                counter: ctr,
            },
        },
        Expr::If(i) => match val_text(*i.condition) {
            Err(k) => GenOutcome { result: Err(k), lines: Seq::empty(), counter: ctr },
            Ok(c) => {
                let tb = gen_stmts(ctr, indent + 1, i.then_block@);
                match tb.result {
                    Err(k) => GenOutcome {
                        result: Err(k),
                        lines: Seq::empty(),
                        counter: tb.counter,
                    },
                    Ok(_) => {
                        let then_block = BlockModel {
                            pre_block: Some("if ("@ + c + ") "@),
                            indent_level: indent + 1,
                            lines: tb.lines,
                        };
                        match i.else_block {
                            None => GenOutcome {
                                result: Ok(()),
                                lines: seq![LineModel::Nested(then_block)],
                                counter: tb.counter,
                            },
                            Some(es) => {
                                let eb = gen_stmts(tb.counter, indent + 1, es@);
                                match eb.result {
                                    Err(k) => GenOutcome {
                                        result: Err(k),
                                        lines: Seq::empty(),
                                        counter: eb.counter,
                                    },
                                    Ok(_) => GenOutcome {
                                        result: Ok(()),
                                        lines: seq![
                                            LineModel::Nested(then_block),
                                            LineModel::Nested(
                                                BlockModel {
                                                    pre_block: Some("else "@),
                                                    indent_level: indent + 1,
                                                    lines: eb.lines,
                                                },
                                            ),
                                        ],
                                        counter: eb.counter,
                                    },
                                }
                            },
                        }
                    },
                }
            },
        },
        Expr::Rep(r) => match val_text(*r.num_iterations) {
            Err(k) => GenOutcome { result: Err(k), lines: Seq::empty(), counter: ctr },
            Ok(c) => {
                let name = fresh_name(ctr + 1);
                let bb = gen_stmts(ctr + 1, indent + 1, r.body@);
                match bb.result {
                    Err(k) => GenOutcome {
                        result: Err(k),
                        lines: Seq::empty(),
                        counter: bb.counter,
                    },
                    Ok(_) => GenOutcome {
                        result: Ok(()),
                        lines: seq![
                            LineModel::Nested(
                                BlockModel {
                                    pre_block: Some(rep_header(name, c)),
                                    indent_level: indent + 1,
                                    lines: bb.lines,
                                },
                            ),
                        ],
                        counter: bb.counter,
                    },
                }
            },
        },
        Expr::FunctionDef(f) => match params_text(f.args@) {
            Err(k) => GenOutcome { result: Err(k), lines: Seq::empty(), counter: ctr },
            Ok(ps) => {
                let bb = gen_stmts(ctr, indent + 1, f.body@);
                match bb.result {
                    Err(k) => GenOutcome {
                        result: Err(k),
                        lines: Seq::empty(),
                        counter: bb.counter,
                    },
                    Ok(_) => GenOutcome {
                        result: Ok(()),
                        lines: seq![
                            LineModel::Nested(
                                BlockModel {
                                    pre_block: Some(function_header(f.name@, ps)),
                                    indent_level: indent + 1,
                                    lines: bb.lines,
                                },
                            ),
                        ],
                        counter: bb.counter,
                    },
                }
            },
        },
        _ => match val_text(e) {
            Err(k) => GenOutcome { result: Err(k), lines: Seq::empty(), counter: ctr },
            Ok(_) => GenOutcome { result: Ok(()), lines: Seq::empty(), counter: ctr },
        },
    }
}

/// Statement-level lowering of a sequence, in order, stopping at the
/// first failure; the lines of the constructs before it stay.
pub open spec fn gen_stmts(ctr: nat, indent: nat, es: Seq<Expr>) -> GenOutcome
    decreases es, 3nat, 0nat,
{
    if es.len() == 0 {
        GenOutcome { result: Ok(()), lines: Seq::empty(), counter: ctr }
    } else {
        let h = gen_stmt(ctr, indent, es[0]);
        match h.result {
            Err(k) => GenOutcome { result: Err(k), lines: h.lines, counter: h.counter },
            Ok(_) => {
                let t = gen_stmts(h.counter, indent, es.subrange(1, es.len() as int));
                GenOutcome { result: t.result, lines: h.lines + t.lines, counter: t.counter }
            },
        }
    }
}

/// The counter never moves backwards and never advances by more than
/// the construct's mint budget.
pub proof fn lemma_gen_counter_bound(ctr: nat, indent: nat, e: Expr)
    ensures
        ctr <= gen_stmt(ctr, indent, e).counter <= ctr + mint_count(e),
    decreases e, 2nat, 1nat,
{
    match e {
        Expr::If(i) => {
            lemma_gen_seq_counter_bound(ctr, indent + 1, i.then_block@);
            match i.else_block {
                Some(es) => {
                    lemma_gen_seq_counter_bound(
                        gen_stmts(ctr, indent + 1, i.then_block@).counter,
                        indent + 1,
                        es@,
                    );
                },
                None => {},
            }
        },
        Expr::Rep(r) => {
            lemma_gen_seq_counter_bound(ctr + 1, indent + 1, r.body@);
        },
        Expr::FunctionDef(f) => {
            lemma_gen_seq_counter_bound(ctr, indent + 1, f.body@);
        },
        _ => {},
    }
}

/// The counter bound for a whole sequence.
pub proof fn lemma_gen_seq_counter_bound(ctr: nat, indent: nat, es: Seq<Expr>)
    ensures
        ctr <= gen_stmts(ctr, indent, es).counter <= ctr + mints_seq(es),
    decreases es, 3nat, 1nat,
{
    if es.len() > 0 {
        lemma_gen_counter_bound(ctr, indent, es[0]);
        let h = gen_stmt(ctr, indent, es[0]);
        if h.result is Ok {
            lemma_gen_seq_counter_bound(h.counter, indent, es.subrange(1, es.len() as int));
        }
    }
}

/// The C++ spelling of a type, or the error for one that has none.
fn get_type_string(inp_type: &Type) -> (r: Result<String, GenError>)
    ensures
        match r {
            Ok(s) => type_text_ok(*inp_type) && s@ == type_text(*inp_type),
            Err(e) => !type_text_ok(*inp_type) && e.kind == GenErrorKind::UnsupportedConstruct,
        },
    decreases *inp_type,
{
    match inp_type {
        Type::Int => Ok("int".to_owned()),
        Type::Float => Ok("float".to_owned()),
        Type::Str => Ok("string".to_owned()),
        Type::Bool => Ok("bool".to_owned()),
        Type::NoneType => Ok("none".to_owned()),
        Type::List(c) => match get_type_string(c) {
            Ok(inner) => Ok(join3("vector<", inner.as_str(), ">")),
            Err(e) => Err(e),
        },
        Type::Tuple(_) => Err(GenError {
            kind: GenErrorKind::UnsupportedConstruct,
            message: "tuple types have no target spelling".to_owned(),
        }),
        Type::FunctionType(_, _) => Ok("auto".to_owned()),
    }
}

/// Lowers an expression to its inline C++ value text; statement forms
/// and unsupported constructs surface the error `val_text` names.
fn lower_value(e: &Expr) -> (r: Result<String, GenError>)
    ensures
        match r {
            Ok(s) => val_text(*e) == Ok::<Seq<char>, GenErrorKind>(s@),
            Err(err) => val_text(*e) == Err::<Seq<char>, GenErrorKind>(err.kind),
        },
    decreases *e, 0nat, 0nat,
{
    match e {
        Expr::Integer(i) => {
            let mut s = String::new();
            push_int(&mut s, *i);
            s.append("LL");
            proof {
                assert(s@ =~= int_literal(*i as int) + "LL"@);
            }
            Ok(s)
        },
        Expr::Float(fx) => {
            let mut s = fx.clone();
            s.append("LL");
            Ok(s)
        },
        Expr::Str(st) => Ok(join3("\"", st.as_str(), "\"")),
        Expr::Boolean(b) => {
            if *b {
                Ok("true".to_owned())
            } else {
                Ok("false".to_owned())
            }
        },
        Expr::Identifier(n) => Ok(n.clone()),
        Expr::BinOp(b) => generate_binop(b),
        Expr::UnOp(u) => generate_unop(u),
        Expr::ListLit(l) => generate_list_expr(l),
        Expr::Return(_) => Err(GenError {
            kind: GenErrorKind::UnsupportedConstruct,
            message: "return expressions are not supported by the generator".to_owned(),
        }),
        Expr::MethodCall(_) => Err(GenError {
            kind: GenErrorKind::UnsupportedConstruct,
            message: "method calls are not supported by the generator".to_owned(),
        }),
        Expr::NoneLit => Err(GenError {
            kind: GenErrorKind::UnsupportedConstruct,
            message: "none literals are not supported by the generator".to_owned(),
        }),
        _ => Err(GenError {
            kind: GenErrorKind::StatementInValuePosition,
            message: "this construct produces no inline value".to_owned(),
        }),
    }
}

/// Lowers a binary operation to `left op right`.
fn generate_binop(binop: &BinOpExpr) -> (r: Result<String, GenError>)
    ensures
        match r {
            Ok(s) => val_text(Expr::BinOp(*binop)) == Ok::<Seq<char>, GenErrorKind>(s@),
            Err(err) => val_text(Expr::BinOp(*binop)) == Err::<Seq<char>, GenErrorKind>(err.kind),
        },
    decreases *binop, 1nat, 0nat,
{
    let lt = match lower_value(&binop.left) {
        Ok(s) => s,
        Err(e) => {
            return Err(e);
        },
    };
    let rt = match lower_value(&binop.right) {
        Ok(s) => s,
        Err(e) => {
            return Err(e);
        },
    };
    let mut s = lt;
    s.append(" ");
    s.append(binop.op.as_str());
    s.append(" ");
    s.append(rt.as_str());
    proof {
        let spec_text = val_text(*binop.left)->Ok_0 + " "@ + binop.op@ + " "@ + val_text(
            *binop.right,
        )->Ok_0;
        assert(s@ =~= spec_text);
    }
    Ok(s)
}

/// Lowers a unary operation to `op(arg)`.
fn generate_unop(unop: &UnOpExpr) -> (r: Result<String, GenError>)
    ensures
        match r {
            Ok(s) => val_text(Expr::UnOp(*unop)) == Ok::<Seq<char>, GenErrorKind>(s@),
            Err(err) => val_text(Expr::UnOp(*unop)) == Err::<Seq<char>, GenErrorKind>(err.kind),
        },
    decreases *unop, 1nat, 0nat,
{
    let at = match lower_value(&unop.arg) {
        Ok(s) => s,
        Err(e) => {
            return Err(e);
        },
    };
    let mut s = unop.op.clone();
    s.append("(");
    s.append(at.as_str());
    s.append(")");
    proof {
        assert(s@ =~= unop.op@ + "("@ + val_text(*unop.arg)->Ok_0 + ")"@);
    }
    Ok(s)
}

/// Lowers a list literal to a sequence-construction expression over
/// its elements, in order.
fn generate_list_expr(list: &ListExpr) -> (r: Result<String, GenError>)
    ensures
        match r {
            Ok(s) => val_text(Expr::ListLit(*list)) == Ok::<Seq<char>, GenErrorKind>(s@),
            Err(err) => val_text(Expr::ListLit(*list)) == Err::<Seq<char>, GenErrorKind>(err.kind),
        },
    decreases *list, 1nat, 0nat,
{
    proof {
        assert(list.elems@.subrange(0, list.elems@.len() as int) =~= list.elems@);
    }
    let items = match lower_list_items(&list.elems, 0) {
        Ok(s) => s,
        Err(e) => {
            return Err(e);
        },
    };
    Ok(join3("vector {", items.as_str(), "}"))
}

/// The `", "`-joined value texts of the elements from `i` on.
fn lower_list_items(elems: &Vec<Expr>, i: usize) -> (r: Result<String, GenError>)
    requires
        i <= elems@.len(),
    ensures
        ({
            let vt = val_texts(elems@.subrange(i as int, elems@.len() as int));
            match r {
                Ok(s) => vt == Ok::<Seq<char>, GenErrorKind>(s@),
                Err(err) => vt == Err::<Seq<char>, GenErrorKind>(err.kind),
            }
        }),
    decreases elems@, 2nat, elems@.len() - i,
{
    let ghost rest = elems@.subrange(i as int, elems@.len() as int);
    if i == elems.len() {
        proof {
            assert(rest =~= Seq::<Expr>::empty());
        }
        return Ok(String::new());
    }
    proof {
        assert(rest[0] == elems@[i as int]);
        assert(rest.subrange(1, rest.len() as int) =~= elems@.subrange(
            i as int + 1,
            elems@.len() as int,
        ));
    }
    let t0 = match lower_value(&elems[i]) {
        Ok(s) => s,
        Err(e) => {
            return Err(e);
        },
    };
    if i + 1 == elems.len() {
        return Ok(t0);
    }
    let tail = match lower_list_items(elems, i + 1) {
        Ok(s) => s,
        Err(e) => {
            return Err(e);
        },
    };
    let mut s = t0;
    s.append(", ");
    s.append(tail.as_str());
    proof {
        assert(s@ =~= val_text(elems@[i as int])->Ok_0 + ", "@ + val_texts(
            elems@.subrange(i as int + 1, elems@.len() as int),
        )->Ok_0);
    }
    Ok(s)
}

/// Emits one declaration statement for an assignment, or nothing on
/// failure.
fn generate_assignment(context: &mut Block, assign: &AssignmentExpr) -> (r: Result<(), GenError>)
    ensures
        match r {
            Ok(u) => assign_stmt(*assign) matches Ok(t) && final(context)@ == (BlockModel {
                lines: old(context)@.lines.push(LineModel::Statement(t)),
                ..old(context)@
            }),
            Err(e) => assign_stmt(*assign) == Err::<Seq<char>, GenErrorKind>(e.kind) && final(context)@ == old(context)@,
        },
{
    let v = match lower_value(&assign.value) {
        Ok(s) => s,
        Err(e) => {
            return Err(e);
        },
    };
    let ty = match get_type_string(&assign.target.associated_type) {
        Ok(s) => s,
        Err(e) => {
            return Err(e);
        },
    };
    let mut line = if assign.const_var {
        "const ".to_owned()
    } else {
        String::new()
    };
    line.append(ty.as_str());
    line.append(" ");
    line.append(assign.target.name.as_str());
    line.append(" = ");
    line.append(v.as_str());
    line.append(";");
    proof {
        assert(line@ =~= assign_stmt(*assign)->Ok_0);
    }
    context.add_line(line);
    Ok(())
}

/// Emits one assignment statement for a reassignment, or nothing on
/// failure.
fn generate_reassignment(context: &mut Block, assign: &ReassignmentExpr) -> (r: Result<
    (),
    GenError,
>)
    ensures
        match r {
            Ok(u) => reassign_stmt(*assign) matches Ok(t) && final(context)@ == (BlockModel {
                lines: old(context)@.lines.push(LineModel::Statement(t)),
                ..old(context)@
            }),
            Err(e) => reassign_stmt(*assign) == Err::<Seq<char>, GenErrorKind>(e.kind) && final(context)@ == old(context)@,
        },
{
    let v = match lower_value(&assign.value) {
        Ok(s) => s,
        Err(e) => {
            return Err(e);
        },
    };
    let mut line = assign.target.clone();
    line.append(" = ");
    line.append(v.as_str());
    line.append(";");
    proof {
        assert(line@ =~= reassign_stmt(*assign)->Ok_0);
    }
    context.add_line(line);
    Ok(())
}

/// Emits one output statement for a print, or nothing on failure.
fn generate_print(context: &mut Block, print: &PrintExpr) -> (r: Result<(), GenError>)
    ensures
        match r {
            Ok(u) => print_stmt(*print) matches Ok(t) && final(context)@ == (BlockModel {
                lines: old(context)@.lines.push(LineModel::Statement(t)),
                ..old(context)@
            }),
            Err(e) => print_stmt(*print) == Err::<Seq<char>, GenErrorKind>(e.kind) && final(context)@ == old(context)@,
        },
{
    let v = match lower_value(&print.arg) {
        Ok(s) => s,
        Err(e) => {
            return Err(e);
        },
    };
    let mut line = "cout << ".to_owned();
    line.append(v.as_str());
    line.append(" << '\\n';");
    proof {
        assert(line@ =~= print_stmt(*print)->Ok_0);
    }
    context.add_line(line);
    Ok(())
}

/// The `", "`-joined parameter texts of the arguments from `i` on.
fn function_params(args: &Vec<TypedIdentifier>, i: usize) -> (r: Result<String, GenError>)
    requires
        i <= args@.len(),
    ensures
        ({
            let pt = params_text(args@.subrange(i as int, args@.len() as int));
            match r {
                Ok(s) => pt == Ok::<Seq<char>, GenErrorKind>(s@),
                Err(err) => pt == Err::<Seq<char>, GenErrorKind>(err.kind),
            }
        }),
    decreases args@.len() - i,
{
    let ghost rest = args@.subrange(i as int, args@.len() as int);
    if i == args.len() {
        proof {
            assert(rest =~= Seq::<TypedIdentifier>::empty());
        }
        return Ok(String::new());
    }
    proof {
        assert(rest[0] == args@[i as int]);
        assert(rest.subrange(1, rest.len() as int) =~= args@.subrange(
            i as int + 1,
            args@.len() as int,
        ));
    }
    let ty = match get_type_string(&args[i].associated_type) {
        Ok(s) => s,
        Err(e) => {
            return Err(GenError {
                kind: GenErrorKind::UnsupportedConstruct,
                message: e.message,
            });
        },
    };
    let mut t0 = ty;
    t0.append(" ");
    t0.append(args[i].name.as_str());
    proof {
        assert(t0@ =~= type_text(args@[i as int].associated_type) + " "@ + args@[i as int].name@);
    }
    if i + 1 == args.len() {
        return Ok(t0);
    }
    let tail = match function_params(args, i + 1) {
        Ok(s) => s,
        Err(e) => {
            return Err(e);
        },
    };
    let mut s = t0;
    s.append(", ");
    s.append(tail.as_str());
    proof {
        assert(s@ =~= (type_text(args@[i as int].associated_type) + " "@ + args@[i as int].name@)
            + ", "@ + params_text(args@.subrange(i as int + 1, args@.len() as int))->Ok_0);
    }
    Ok(s)
}

/// Owns the fresh-name counter of one generation run: names minted by
/// one generator never repeat, and distinct runs are independent.
pub struct Generator {
    counter: u64,
}

impl Generator {
    /// The number of names minted so far.
    pub closed spec fn ctr(&self) -> nat {
        self.counter as nat
    }

    /// A generator that has minted nothing.
    pub fn new() -> (r: Self)
        ensures
            r.ctr() == 0,
    {
        Generator { counter: 0 }
    }

    /// Mints the next unique synthetic name.
    fn generate_variable_name(&mut self) -> (r: String)
        requires
            old(self).ctr() < u64::MAX,
        ensures
            final(self).ctr() == old(self).ctr() + 1,
            r@ == fresh_name(old(self).ctr() + 1),
    {
        self.counter = self.counter + 1;
        let mut s = "var_".to_owned();
        push_decimal(&mut s, self.counter as u128);
        s
    }

    /// Lowers one construct at statement level, appending its lines
    /// to `context`, exactly as `gen_stmt` says; a failing construct
    /// appends nothing.
    fn process_expression(&mut self, context: &mut Block, expr: &Expr) -> (r: Result<
        (),
        GenError,
    >)
        requires
            old(self).ctr() + mint_count(*expr) <= u64::MAX,
            old(context)@.indent_level + expr_depth(*expr) <= usize::MAX,
        ensures
            ({
                let g = gen_stmt(old(self).ctr(), old(context)@.indent_level, *expr);
                &&& final(self).ctr() == g.counter
                &&& final(context)@ == (BlockModel {
                    lines: old(context)@.lines + g.lines,
                    ..old(context)@
                })
                &&& match r {
                    Ok(u) => g.result == Ok::<(), GenErrorKind>(()),
                    Err(e) => g.result == Err::<(), GenErrorKind>(e.kind),
                }
            }),
        decreases *expr, 0nat, 1nat,
    {
        match expr {
            Expr::Assignment(a) => match generate_assignment(context, a) {
                Ok(u) => {
                    proof {
                        lemma_push_is_add(old(context)@.lines, LineModel::Statement(assign_stmt(*a)->Ok_0));
                    }
                    Ok(())
                },
                Err(e) => {
                    proof {
                        lemma_block_unchanged(old(context)@);
                    }
                    Err(e)
                },
            },
            Expr::Reassignment(re) => match generate_reassignment(context, re) {
                Ok(u) => {
                    proof {
                        lemma_push_is_add(old(context)@.lines, LineModel::Statement(reassign_stmt(*re)->Ok_0));
                    }
                    Ok(())
                },
                Err(e) => {
                    proof {
                        lemma_block_unchanged(old(context)@);
                    }
                    Err(e)
                },
            },
            Expr::Print(p) => match generate_print(context, p) {
                Ok(u) => {
                    proof {
                        lemma_push_is_add(old(context)@.lines, LineModel::Statement(print_stmt(*p)->Ok_0));
                    }
                    Ok(())
                },
                Err(e) => {
                    proof {
                        lemma_block_unchanged(old(context)@);
                    }
                    Err(e)
                },
            },
            Expr::If(i) => self.generate_if(context, i),
            Expr::Rep(rep) => self.generate_rep(context, rep),
            Expr::FunctionDef(func) => self.generate_function_def(context, func),
            _ => {
                // a pure value form at statement level emits nothing;
                // an unsupported construct surfaces its error
                let r = lower_value(expr);
                proof {
                    lemma_block_unchanged(old(context)@);
                }
                match r {
                    Ok(_) => Ok(()),
                    Err(e) => Err(e),
                }
            },
        }
    }

    /// Lowers a sequence of constructs in order, stopping at the
    /// first failure, exactly as `gen_stmts` says.
    fn process_expressions(&mut self, context: &mut Block, exprs: &Vec<Expr>) -> (r: Result<
        (),
        GenError,
    >)
        requires
            old(self).ctr() + mints_seq(exprs@) <= u64::MAX,
            old(context)@.indent_level + seq_depth(exprs@) <= usize::MAX,
        ensures
            ({
                let g = gen_stmts(old(self).ctr(), old(context)@.indent_level, exprs@);
                &&& final(self).ctr() == g.counter
                &&& final(context)@ == (BlockModel {
                    lines: old(context)@.lines + g.lines,
                    ..old(context)@
                })
                &&& match r {
                    Ok(u) => g.result == Ok::<(), GenErrorKind>(()),
                    Err(e) => g.result == Err::<(), GenErrorKind>(e.kind),
                }
            }),
        decreases exprs@, 2nat, 0nat,
    {
        let ghost ctr0 = self.ctr();
        let ghost m0 = context@;
        let n = exprs.len();
        proof {
            assert(exprs@.subrange(0, n as int) =~= exprs@);
            assert(m0.lines.take(m0.lines.len() as int) =~= m0.lines);
            assert(m0.lines.skip(m0.lines.len() as int) =~= Seq::<LineModel>::empty());
            assert(m0.lines.skip(m0.lines.len() as int) + gen_stmts(
                ctr0,
                m0.indent_level,
                exprs@,
            ).lines =~= gen_stmts(ctr0, m0.indent_level, exprs@).lines);
        }
        let mut i: usize = 0;
        while i < n
            invariant
                i <= n,
                n == exprs@.len(),
                ctr0 == old(self).ctr(),
                m0 == old(context)@,
                context@.pre_block == m0.pre_block,
                context@.indent_level == m0.indent_level,
                context@.lines.len() >= m0.lines.len(),
                context@.lines.take(m0.lines.len() as int) == m0.lines,
                self.ctr() + mints_seq(exprs@.subrange(i as int, n as int)) <= u64::MAX,
                m0.indent_level + seq_depth(exprs@.subrange(i as int, n as int)) <= usize::MAX,
                gen_stmts(ctr0, m0.indent_level, exprs@) == ({
                    let grest = gen_stmts(
                        self.ctr(),
                        m0.indent_level,
                        exprs@.subrange(i as int, n as int),
                    );
                    GenOutcome {
                        result: grest.result,
                        lines: context@.lines.skip(m0.lines.len() as int) + grest.lines,
                        counter: grest.counter,
                    }
                }),
            decreases n - i,
        {
            let ghost rest = exprs@.subrange(i as int, n as int);
            let ghost ctr_i = self.ctr();
            let ghost lines_pre = context@.lines;
            let ghost mid = context@.lines.skip(m0.lines.len() as int);
            proof {
                assert(rest[0] == exprs@[i as int]);
                assert(rest.subrange(1, rest.len() as int) =~= exprs@.subrange(
                    i as int + 1,
                    n as int,
                ));
                assert(lines_pre =~= m0.lines + mid) by {
                    assert(lines_pre =~= lines_pre.take(m0.lines.len() as int) + lines_pre.skip(
                        m0.lines.len() as int,
                    ));
                };
            }
            let res = self.process_expression(context, &exprs[i]);
            proof {
                let h = gen_stmt(ctr_i, m0.indent_level, exprs@[i as int]);
                lemma_gen_counter_bound(ctr_i, m0.indent_level, exprs@[i as int]);
                assert(context@.lines =~= (m0.lines + mid) + h.lines);
                assert(context@.lines.take(m0.lines.len() as int) =~= m0.lines);
                assert(context@.lines.skip(m0.lines.len() as int) =~= mid + h.lines);
            }
            match res {
                Ok(u) => {},
                Err(e) => {
                    return Err(e);
                },
            }
            proof {
                let h = gen_stmt(ctr_i, m0.indent_level, exprs@[i as int]);
                let trest = gen_stmts(
                    self.ctr(),
                    m0.indent_level,
                    exprs@.subrange(i as int + 1, n as int),
                );
                assert((mid + h.lines) + trest.lines =~= mid + (h.lines + trest.lines));
            }
            i = i + 1;
        }
        proof {
            assert(exprs@.subrange(n as int, n as int) =~= Seq::<Expr>::empty());
            let mid = context@.lines.skip(m0.lines.len() as int);
            assert(mid + Seq::<LineModel>::empty() =~= mid);
            assert(context@.lines =~= m0.lines + mid) by {
                assert(context@.lines =~= context@.lines.take(m0.lines.len() as int)
                    + context@.lines.skip(m0.lines.len() as int));
            };
        }
        Ok(())
    }

    /// Lowers a conditional: nested then and else blocks one level
    /// deeper, appended only when both lower cleanly.
    fn generate_if(&mut self, context: &mut Block, if_expr: &IfExpr) -> (r: Result<(), GenError>)
        requires
            old(self).ctr() + mint_count(Expr::If(*if_expr)) <= u64::MAX,
            old(context)@.indent_level + expr_depth(Expr::If(*if_expr)) <= usize::MAX,
        ensures
            ({
                let g = gen_stmt(old(self).ctr(), old(context)@.indent_level, Expr::If(*if_expr));
                &&& final(self).ctr() == g.counter
                &&& final(context)@ == (BlockModel {
                    lines: old(context)@.lines + g.lines,
                    ..old(context)@
                })
                &&& match r {
                    Ok(u) => g.result == Ok::<(), GenErrorKind>(()),
                    Err(e) => g.result == Err::<(), GenErrorKind>(e.kind),
                }
            }),
        decreases *if_expr, 1nat, 0nat,
    {
        proof {
            lemma_block_unchanged(old(context)@);
        }
        let condition = match lower_value(&if_expr.condition) {
            Ok(s) => s,
            Err(e) => {
                return Err(e);
            },
        };
        let header = join3("if (", condition.as_str(), ") ");
        let mut then_blk = Block::new_with_pre_block(header, context.indent_level + 1);
        match self.process_expressions(&mut then_blk, &if_expr.then_block) {
            Ok(u) => {},
            Err(e) => {
                return Err(e);
            },
        }
        proof {
            let tb = gen_stmts(
                old(self).ctr(),
                old(context)@.indent_level + 1,
                if_expr.then_block@,
            );
            assert(Seq::<LineModel>::empty() + tb.lines =~= tb.lines);
            lemma_gen_seq_counter_bound(
                old(self).ctr(),
                old(context)@.indent_level + 1,
                if_expr.then_block@,
            );
        }
        match &if_expr.else_block {
            None => {
                context.add_block(then_blk);
                proof {
                    let g = gen_stmt(
                        old(self).ctr(),
                        old(context)@.indent_level,
                        Expr::If(*if_expr),
                    );
                    lemma_push_is_add(old(context)@.lines, g.lines[0]);
                }
                Ok(())
            },
            Some(els) => {
                let mut else_blk = Block::new_with_pre_block(
                    "else ".to_owned(),
                    context.indent_level + 1,
                );
                match self.process_expressions(&mut else_blk, els) {
                    Ok(u) => {},
                    Err(e) => {
                        return Err(e);
                    },
                }
                context.add_block(then_blk);
                context.add_block(else_blk);
                proof {
                    let g = gen_stmt(
                        old(self).ctr(),
                        old(context)@.indent_level,
                        Expr::If(*if_expr),
                    );
                    let eb = gen_stmts(
                        gen_stmts(
                            old(self).ctr(),
                            old(context)@.indent_level + 1,
                            if_expr.then_block@,
                        ).counter,
                        old(context)@.indent_level + 1,
                        els@,
                    );
                    assert(Seq::<LineModel>::empty() + eb.lines =~= eb.lines);
                    assert(old(context)@.lines.push(g.lines[0]).push(g.lines[1])
                        =~= old(context)@.lines + g.lines);
                }
                Ok(())
            },
        }
    }

    /// Lowers a counted loop: mints one fresh counter name and nests
    /// the body one level deeper.
    fn generate_rep(&mut self, context: &mut Block, rep: &RepExpr) -> (r: Result<(), GenError>)
        requires
            old(self).ctr() + mint_count(Expr::Rep(*rep)) <= u64::MAX,
            old(context)@.indent_level + expr_depth(Expr::Rep(*rep)) <= usize::MAX,
        ensures
            ({
                let g = gen_stmt(old(self).ctr(), old(context)@.indent_level, Expr::Rep(*rep));
                &&& final(self).ctr() == g.counter
                &&& final(context)@ == (BlockModel {
                    lines: old(context)@.lines + g.lines,
                    ..old(context)@
                })
                &&& match r {
                    Ok(u) => g.result == Ok::<(), GenErrorKind>(()),
                    Err(e) => g.result == Err::<(), GenErrorKind>(e.kind),
                }
            }),
        decreases *rep, 1nat, 0nat,
    {
        proof {
            lemma_block_unchanged(old(context)@);
        }
        let count = match lower_value(&rep.num_iterations) {
            Ok(s) => s,
            Err(e) => {
                return Err(e);
            },
        };
        let name = self.generate_variable_name();
        let mut header = "for (int ".to_owned();
        header.append(name.as_str());
        header.append(" = 0; ");
        header.append(name.as_str());
        header.append(" < ");
        header.append(count.as_str());
        header.append("; ");
        header.append(name.as_str());
        header.append("++) ");
        proof {
            assert(header@ =~= rep_header(
                fresh_name(old(self).ctr() + 1),
                val_text(*rep.num_iterations)->Ok_0,
            ));
        }
        let mut new_block = Block::new_with_pre_block(header, context.indent_level + 1);
        match self.process_expressions(&mut new_block, &rep.body) {
            Ok(u) => {},
            Err(e) => {
                return Err(e);
            },
        }
        context.add_block(new_block);
        proof {
            let bb = gen_stmts(
                old(self).ctr() + 1,
                old(context)@.indent_level + 1,
                rep.body@,
            );
            assert(Seq::<LineModel>::empty() + bb.lines =~= bb.lines);
            let g = gen_stmt(old(self).ctr(), old(context)@.indent_level, Expr::Rep(*rep));
            lemma_push_is_add(old(context)@.lines, g.lines[0]);
        }
        Ok(())
    }

    /// Lowers a function definition: a closure header with the mapped
    /// parameter list, and the body one level deeper.
    fn generate_function_def(&mut self, context: &mut Block, func: &FunctionDef) -> (r: Result<
        (),
        GenError,
    >)
        requires
            old(self).ctr() + mint_count(Expr::FunctionDef(*func)) <= u64::MAX,
            old(context)@.indent_level + expr_depth(Expr::FunctionDef(*func)) <= usize::MAX,
        ensures
            ({
                let g = gen_stmt(
                    old(self).ctr(),
                    old(context)@.indent_level,
                    Expr::FunctionDef(*func),
                );
                &&& final(self).ctr() == g.counter
                &&& final(context)@ == (BlockModel {
                    lines: old(context)@.lines + g.lines,
                    ..old(context)@
                })
                &&& match r {
                    Ok(u) => g.result == Ok::<(), GenErrorKind>(()),
                    Err(e) => g.result == Err::<(), GenErrorKind>(e.kind),
                }
            }),
        decreases *func, 1nat, 0nat,
    {
        proof {
            lemma_block_unchanged(old(context)@);
            assert(func.args@.subrange(0, func.args@.len() as int) =~= func.args@);
        }
        let params = match function_params(&func.args, 0) {
            Ok(s) => s,
            Err(e) => {
                return Err(e);
            },
        };
        let mut header = "auto ".to_owned();
        header.append(func.name.as_str());
        header.append(" = [&](");
        header.append(params.as_str());
        header.append(") -> auto ");
        proof {
            assert(header@ =~= function_header(func.name@, params_text(func.args@)->Ok_0));
        }
        let mut new_block = Block::new_with_pre_block(header, context.indent_level + 1);
        match self.process_expressions(&mut new_block, &func.body) {
            Ok(u) => {},
            Err(e) => {
                return Err(e);
            },
        }
        context.add_block(new_block);
        proof {
            let bb = gen_stmts(old(self).ctr(), old(context)@.indent_level + 1, func.body@);
            assert(Seq::<LineModel>::empty() + bb.lines =~= bb.lines);
            let g = gen_stmt(
                old(self).ctr(),
                old(context)@.indent_level,
                Expr::FunctionDef(*func),
            );
            lemma_push_is_add(old(context)@.lines, g.lines[0]);
        }
        Ok(())
    }
}

/// Appending one line is appending a one-line sequence.
proof fn lemma_push_is_add(ls: Seq<LineModel>, x: LineModel)
    ensures
        ls.push(x) == ls + seq![x],
{
    assert(ls.push(x) =~= ls + seq![x]);
}

/// A block model is unchanged by appending no lines.
proof fn lemma_block_unchanged(m: BlockModel)
    ensures
        m == (BlockModel { lines: m.lines + Seq::<LineModel>::empty(), ..m }),
{
    assert(m.lines + Seq::<LineModel>::empty() =~= m.lines);
}

/// Lowers a whole program to target source text: the fixed preamble,
/// one `solve` body generated from the top-level expressions, and the
/// fixed entry point. Generation succeeds or fails exactly as
/// `gen_stmts` says, and the emitted text is exactly the rendering of
/// the generated block tree.
pub fn generate(ast: &crate::ast::Program) -> (r: Result<String, GenError>)
    requires
        mints_seq(ast.expressions@) <= u64::MAX,
        seq_depth(ast.expressions@) <= usize::MAX,
    ensures
        ({
            let g = gen_stmts(0, 0, ast.expressions@);
            match r {
                Ok(s) => g.result == Ok::<(), GenErrorKind>(()) && s@ == program_text(
                    BlockModel {
                        pre_block: Some("void solve() "@),
                        indent_level: 0,
                        lines: g.lines,
                    },
                ),
                Err(e) => g.result == Err::<(), GenErrorKind>(e.kind),
            }
        }),
{
    let mut program = Program::new();
    let mut generator = Generator::new();
    match generator.process_expressions(&mut program.solve_block, &ast.expressions) {
        Ok(u) => {
            proof {
                let g = gen_stmts(0, 0, ast.expressions@);
                assert(Seq::<LineModel>::empty() + g.lines =~= g.lines);
            }
            Ok(program.to_string())
        },
        Err(e) => Err(e),
    }
}


/// Whether an expression is a supported inline value form.
pub open spec fn supported_value(e: Expr) -> bool
    decreases e, 0nat, 0nat,
{
    match e {
        Expr::Integer(_) => true,
        Expr::Float(_) => true,
        Expr::Str(_) => true,
        Expr::Boolean(_) => true,
        Expr::Identifier(_) => true,
        Expr::BinOp(b) => supported_value(*b.left) && supported_value(*b.right),
        Expr::UnOp(u) => supported_value(*u.arg),
        Expr::ListLit(l) => supported_values(l.elems@),
        _ => false,
    }
}

/// Whether every element of a sequence is a supported value form.
pub open spec fn supported_values(es: Seq<Expr>) -> bool
    decreases es, 1nat, 0nat,
{
    es.len() == 0 || (supported_value(es[0]) && supported_values(es.subrange(1, es.len() as int)))
}

/// Whether every parameter type has a C++ spelling.
pub open spec fn params_ok(args: Seq<TypedIdentifier>) -> bool
    decreases args,
{
    args.len() == 0 || (type_text_ok(args[0].associated_type) && params_ok(
        args.subrange(1, args.len() as int),
    ))
}

/// Whether a construct is supported at statement level: its value
/// positions hold value forms, its bound types have C++ spellings,
/// and it contains no construct without a lowering rule.
pub open spec fn supported_stmt(e: Expr) -> bool
    decreases e, 2nat, 0nat,
{
    match e {
        Expr::Assignment(a) => supported_value(*a.value) && type_text_ok(a.target.associated_type),
        Expr::Reassignment(re) => supported_value(*re.value),
        Expr::Print(p) => supported_value(*p.arg),
        Expr::If(i) => supported_value(*i.condition) && supported_seq(i.then_block@) && (match i.else_block {
            Some(es) => supported_seq(es@),
            None => true,
        }),
        Expr::Rep(r) => supported_value(*r.num_iterations) && supported_seq(r.body@),
        Expr::FunctionDef(f) => params_ok(f.args@) && supported_seq(f.body@),
        Expr::Return(_) => false,
        Expr::MethodCall(_) => false,
        Expr::NoneLit => false,
        _ => supported_value(e),
    }
}

/// Whether every construct of a sequence is supported.
pub open spec fn supported_seq(es: Seq<Expr>) -> bool
    decreases es, 3nat, 0nat,
{
    es.len() == 0 || (supported_stmt(es[0]) && supported_seq(es.subrange(1, es.len() as int)))
}

/// Value lowering succeeds exactly on supported value forms.
pub proof fn lemma_val_text_ok(e: Expr)
    ensures
        val_text(e) is Ok <==> supported_value(e),
    decreases e, 0nat, 1nat,
{
    match e {
        Expr::BinOp(b) => {
            lemma_val_text_ok(*b.left);
            lemma_val_text_ok(*b.right);
        },
        Expr::UnOp(u) => {
            lemma_val_text_ok(*u.arg);
        },
        Expr::ListLit(l) => {
            lemma_val_texts_ok(l.elems@);
        },
        _ => {},
    }
}

/// Element lowering succeeds exactly on supported value sequences.
pub proof fn lemma_val_texts_ok(es: Seq<Expr>)
    ensures
        val_texts(es) is Ok <==> supported_values(es),
    decreases es, 1nat, 1nat,
{
    if es.len() > 0 {
        lemma_val_text_ok(es[0]);
        lemma_val_texts_ok(es.subrange(1, es.len() as int));
    }
}

/// Parameter lowering succeeds exactly on spellable parameter lists.
pub proof fn lemma_params_text_ok(args: Seq<TypedIdentifier>)
    ensures
        params_text(args) is Ok <==> params_ok(args),
    decreases args,
{
    if args.len() > 0 {
        lemma_params_text_ok(args.subrange(1, args.len() as int));
    }
}

/// Statement lowering succeeds exactly on supported constructs,
/// whatever the counter and depth.
pub proof fn lemma_gen_stmt_ok(ctr: nat, indent: nat, e: Expr)
    ensures
        gen_stmt(ctr, indent, e).result is Ok <==> supported_stmt(e),
    decreases e, 2nat, 1nat,
{
    match e {
        Expr::Assignment(a) => {
            lemma_val_text_ok(*a.value);
        },
        Expr::Reassignment(re) => {
            lemma_val_text_ok(*re.value);
        },
        Expr::Print(p) => {
            lemma_val_text_ok(*p.arg);
        },
        Expr::If(i) => {
            lemma_val_text_ok(*i.condition);
            lemma_gen_seq_ok(ctr, indent + 1, i.then_block@);
            match i.else_block {
                Some(es) => {
                    lemma_gen_seq_ok(
                        gen_stmts(ctr, indent + 1, i.then_block@).counter,
                        indent + 1,
                        es@,
                    );
                },
                None => {},
            }
        },
        Expr::Rep(r) => {
            lemma_val_text_ok(*r.num_iterations);
            lemma_gen_seq_ok(ctr + 1, indent + 1, r.body@);
        },
        Expr::FunctionDef(f) => {
            lemma_params_text_ok(f.args@);
            lemma_gen_seq_ok(ctr, indent + 1, f.body@);
        },
        _ => {
            lemma_val_text_ok(e);
        },
    }
}

/// Sequence lowering succeeds exactly on supported sequences.
pub proof fn lemma_gen_seq_ok(ctr: nat, indent: nat, es: Seq<Expr>)
    ensures
        gen_stmts(ctr, indent, es).result is Ok <==> supported_seq(es),
    decreases es, 3nat, 1nat,
{
    if es.len() > 0 {
        lemma_gen_stmt_ok(ctr, indent, es[0]);
        let h = gen_stmt(ctr, indent, es[0]);
        if h.result is Ok {
            lemma_gen_seq_ok(h.counter, indent, es.subrange(1, es.len() as int));
        }
    }
}

/// Generation is total on supported programs: lowering the top-level
/// expressions succeeds, from a fresh counter at depth zero, exactly
/// when every construct is supported (well-typed or not).
pub proof fn lemma_generation_succeeds_iff_supported(es: Seq<Expr>)
    ensures
        gen_stmts(0, 0, es).result is Ok <==> supported_seq(es),
{
    lemma_gen_seq_ok(0, 0, es);
}


/// Whether every name, operator token, and textual literal inside a
/// construct is free of brace characters.
pub open spec fn tokens_brace_free(e: Expr) -> bool
    decreases e, 2nat, 0nat,
{
    match e {
        Expr::Integer(_) => true,
        Expr::Boolean(_) => true,
        Expr::Float(s) => brace_free(s@),
        Expr::Str(s) => brace_free(s@),
        Expr::Identifier(s) => brace_free(s@),
        Expr::BinOp(b) => brace_free(b.op@) && tokens_brace_free(*b.left) && tokens_brace_free(
            *b.right,
        ),
        Expr::UnOp(u) => brace_free(u.op@) && tokens_brace_free(*u.arg),
        Expr::ListLit(l) => tokens_brace_free_seq(l.elems@),
        Expr::Assignment(a) => brace_free(a.target.name@) && tokens_brace_free(*a.value),
        Expr::Reassignment(re) => brace_free(re.target@) && tokens_brace_free(*re.value),
        Expr::Print(p) => tokens_brace_free(*p.arg),
        Expr::If(i) => tokens_brace_free(*i.condition) && tokens_brace_free_seq(i.then_block@)
            && (match i.else_block {
            Some(es) => tokens_brace_free_seq(es@),
            None => true,
        }),
        Expr::Rep(r) => tokens_brace_free(*r.num_iterations) && tokens_brace_free_seq(r.body@),
        Expr::FunctionDef(f) => brace_free(f.name@) && args_brace_free(f.args@)
            && tokens_brace_free_seq(f.body@),
        Expr::Return(_) => true,
        Expr::MethodCall(_) => true,
        Expr::NoneLit => true,
    }
}

/// Whether every token of a sequence of constructs is brace-free.
pub open spec fn tokens_brace_free_seq(es: Seq<Expr>) -> bool
    decreases es, 3nat, 0nat,
{
    es.len() == 0 || (tokens_brace_free(es[0]) && tokens_brace_free_seq(
        es.subrange(1, es.len() as int),
    ))
}

/// Whether every parameter name is brace-free.
pub open spec fn args_brace_free(args: Seq<TypedIdentifier>) -> bool
    decreases args,
{
    args.len() == 0 || (brace_free(args[0].name@) && args_brace_free(
        args.subrange(1, args.len() as int),
    ))
}

/// Decimal digit strings hold no brace.
pub proof fn lemma_dec_digits_brace_free(n: nat)
    ensures
        brace_free(dec_digits(n)),
    decreases n,
{
    if n < 10 {
        let s = dec_digits(n);
        assert(s.drop_last() =~= Seq::<char>::empty());
        assert(digit_char(n) != '{' && digit_char(n) != '}');
        assert(s.last() == digit_char(n));
        assert(count_char(s, '{') == count_char(s.drop_last(), '{'));
        assert(count_char(s.drop_last(), '{') == 0);
        assert(count_char(s, '}') == count_char(s.drop_last(), '}'));
        assert(count_char(s.drop_last(), '}') == 0);
    } else {
        assert(n / 10 < n) by (nonlinear_arith)
            requires
                n >= 10,
        ;
        lemma_dec_digits_brace_free(n / 10);
        let s = dec_digits(n);
        assert(s.drop_last() =~= dec_digits(n / 10));
        assert(digit_char(n % 10) != '{' && digit_char(n % 10) != '}');
        assert(s.last() == digit_char(n % 10));
        assert(count_char(s, '{') == count_char(dec_digits(n / 10), '{'));
        assert(count_char(s, '}') == count_char(dec_digits(n / 10), '}'));
    }
}

/// Integer literal texts hold no brace.
pub proof fn lemma_int_literal_brace_free(i: int)
    ensures
        brace_free(int_literal(i)),
{
    if i >= 0 {
        lemma_dec_digits_brace_free(i as nat);
    } else {
        lemma_dec_digits_brace_free((-i) as nat);
        assert(brace_free(seq!['-'])) by {
            lemma_brace_free(seq!['-']);
        };
        lemma_count_char_add(seq!['-'], dec_digits((-i) as nat), '{');
        lemma_count_char_add(seq!['-'], dec_digits((-i) as nat), '}');
    }
}

/// Fresh names hold no brace.
pub proof fn lemma_fresh_name_brace_free(n: nat)
    ensures
        brace_free(fresh_name(n)),
{
    reveal_strlit("var_");
    lemma_brace_free("var_"@);
    lemma_dec_digits_brace_free(n);
    lemma_count_char_add("var_"@, dec_digits(n), '{');
    lemma_count_char_add("var_"@, dec_digits(n), '}');
}

/// Type spellings hold no brace.
pub proof fn lemma_type_text_brace_free(t: Type)
    ensures
        brace_free(type_text(t)),
    decreases t,
{
    match t {
        Type::Int => {
            reveal_strlit("int");
            lemma_brace_free("int"@);
        },
        Type::Float => {
            reveal_strlit("float");
            lemma_brace_free("float"@);
        },
        Type::Str => {
            reveal_strlit("string");
            lemma_brace_free("string"@);
        },
        Type::Bool => {
            reveal_strlit("bool");
            lemma_brace_free("bool"@);
        },
        Type::NoneType => {
            reveal_strlit("none");
            lemma_brace_free("none"@);
        },
        Type::List(elem) => {
            reveal_strlit("vector<");
            reveal_strlit(">");
            lemma_brace_free("vector<"@);
            lemma_brace_free(">"@);
            lemma_type_text_brace_free(*elem);
            lemma_count_char_add("vector<"@, type_text(*elem), '{');
            lemma_count_char_add("vector<"@ + type_text(*elem), ">"@, '{');
            lemma_count_char_add("vector<"@, type_text(*elem), '}');
            lemma_count_char_add("vector<"@ + type_text(*elem), ">"@, '}');
        },
        Type::Tuple(_) => {
            lemma_brace_free(Seq::<char>::empty());
        },
        Type::FunctionType(_, _) => {
            reveal_strlit("auto");
            lemma_brace_free("auto"@);
        },
    }
}

/// Concatenating balanced pieces keeps the braces balanced.
pub proof fn lemma_balanced_add(a: Seq<char>, b: Seq<char>)
    requires
        braces_balanced(a),
        braces_balanced(b),
    ensures
        braces_balanced(a + b),
{
    lemma_count_char_add(a, b, '{');
    lemma_count_char_add(a, b, '}');
}

/// The inline value text of an expression with brace-free tokens has
/// balanced braces.
pub proof fn lemma_val_text_balanced(e: Expr)
    requires
        tokens_brace_free(e),
        val_text(e) is Ok,
    ensures
        braces_balanced(val_text(e)->Ok_0),
    decreases e, 2nat, 1nat,
{
    match e {
        Expr::Integer(i) => {
            reveal_strlit("LL");
            lemma_int_literal_brace_free(i as int);
            lemma_brace_free("LL"@);
            lemma_balanced_add(int_literal(i as int), "LL"@);
        },
        Expr::Float(s) => {
            reveal_strlit("LL");
            lemma_brace_free("LL"@);
            lemma_balanced_add(s@, "LL"@);
        },
        Expr::Str(s) => {
            reveal_strlit("\"");
            lemma_brace_free("\""@);
            lemma_balanced_add("\""@, s@);
            lemma_balanced_add("\""@ + s@, "\""@);
        },
        Expr::Boolean(b) => {
            reveal_strlit("true");
            reveal_strlit("false");
            lemma_brace_free("true"@);
            lemma_brace_free("false"@);
        },
        Expr::Identifier(_) => {},
        Expr::BinOp(b) => {
            reveal_strlit(" ");
            lemma_brace_free(" "@);
            lemma_val_text_balanced(*b.left);
            lemma_val_text_balanced(*b.right);
            let lt = val_text(*b.left)->Ok_0;
            let rt = val_text(*b.right)->Ok_0;
            lemma_balanced_add(lt, " "@);
            lemma_balanced_add(lt + " "@, b.op@);
            lemma_balanced_add(lt + " "@ + b.op@, " "@);
            lemma_balanced_add(lt + " "@ + b.op@ + " "@, rt);
        },
        Expr::UnOp(u) => {
            reveal_strlit("(");
            reveal_strlit(")");
            lemma_brace_free("("@);
            lemma_brace_free(")"@);
            lemma_val_text_balanced(*u.arg);
            let at = val_text(*u.arg)->Ok_0;
            lemma_balanced_add(u.op@, "("@);
            lemma_balanced_add(u.op@ + "("@, at);
            lemma_balanced_add(u.op@ + "("@ + at, ")"@);
        },
        Expr::ListLit(l) => {
            lemma_val_texts_balanced(l.elems@);
            let items = val_texts(l.elems@)->Ok_0;
            assert(count_char("vector {"@, '{') == 1 && count_char("vector {"@, '}') == 0) by {
                reveal_strlit("vector {");
                reveal_with_fuel(count_char, 10);
                assert("vector {"@.drop_last() =~= "vector {"@.subrange(0, 7));
                lemma_count_char_zero("vector {"@.subrange(0, 7), '{');
                lemma_count_char_zero("vector {"@.subrange(0, 7), '}');
            };
            assert(count_char("}"@, '{') == 0 && count_char("}"@, '}') == 1) by {
                reveal_strlit("}");
                reveal_with_fuel(count_char, 3);
                assert("}"@.drop_last() =~= Seq::<char>::empty());
            };
            lemma_count_char_add("vector {"@, items, '{');
            lemma_count_char_add("vector {"@ + items, "}"@, '{');
            lemma_count_char_add("vector {"@, items, '}');
            lemma_count_char_add("vector {"@ + items, "}"@, '}');
        },
        _ => {},
    }
}

/// The joined element texts of a list with brace-free tokens have
/// balanced braces.
pub proof fn lemma_val_texts_balanced(es: Seq<Expr>)
    requires
        tokens_brace_free_seq(es),
        val_texts(es) is Ok,
    ensures
        braces_balanced(val_texts(es)->Ok_0),
    decreases es, 3nat, 1nat,
{
    if es.len() == 0 {
    } else {
        lemma_val_text_balanced(es[0]);
        if es.len() > 1 {
            reveal_strlit(", ");
            lemma_brace_free(", "@);
            lemma_val_texts_balanced(es.subrange(1, es.len() as int));
            let t0 = val_text(es[0])->Ok_0;
            let rest = val_texts(es.subrange(1, es.len() as int))->Ok_0;
            lemma_balanced_add(t0, ", "@);
            lemma_balanced_add(t0 + ", "@, rest);
        }
    }
}

/// The parameter list text of brace-free parameter names holds no
/// brace at all.
pub proof fn lemma_params_text_brace_free(args: Seq<TypedIdentifier>)
    requires
        args_brace_free(args),
        params_text(args) is Ok,
    ensures
        brace_free(params_text(args)->Ok_0),
    decreases args,
{
    reveal_strlit(" ");
    reveal_strlit(", ");
    lemma_brace_free(" "@);
    lemma_brace_free(", "@);
    if args.len() == 0 {
        lemma_brace_free(Seq::<char>::empty());
    } else {
        lemma_type_text_brace_free(args[0].associated_type);
        let t0 = type_text(args[0].associated_type) + " "@ + args[0].name@;
        lemma_count_char_add(type_text(args[0].associated_type), " "@, '{');
        lemma_count_char_add(type_text(args[0].associated_type) + " "@, args[0].name@, '{');
        lemma_count_char_add(type_text(args[0].associated_type), " "@, '}');
        lemma_count_char_add(type_text(args[0].associated_type) + " "@, args[0].name@, '}');
        if args.len() > 1 {
            lemma_params_text_brace_free(args.subrange(1, args.len() as int));
            let rest = params_text(args.subrange(1, args.len() as int))->Ok_0;
            lemma_count_char_add(t0, ", "@, '{');
            lemma_count_char_add(t0 + ", "@, rest, '{');
            lemma_count_char_add(t0, ", "@, '}');
            lemma_count_char_add(t0 + ", "@, rest, '}');
        }
    }
}


/// A one-line sequence with a balanced line is balanced.
proof fn lemma_lines_balanced_one(x: LineModel)
    requires
        line_texts_balanced(x),
    ensures
        lines_texts_balanced(seq![x]),
{
    reveal_with_fuel(lines_texts_balanced, 3);
    assert(seq![x].drop_last() =~= Seq::<LineModel>::empty());
    assert(seq![x].last() == x);
}

/// A two-line sequence with balanced lines is balanced.
proof fn lemma_lines_balanced_two(x: LineModel, y: LineModel)
    requires
        line_texts_balanced(x),
        line_texts_balanced(y),
    ensures
        lines_texts_balanced(seq![x, y]),
{
    assert(seq![x, y].drop_last() =~= seq![x]);
    lemma_lines_balanced_one(x);
    assert(seq![x, y].last() == y);
}

/// A one-line sequence that sits correctly is depth-consistent.
proof fn lemma_lines_depth_one(x: LineModel, parent: nat)
    requires
        line_depth_ok(x, parent),
    ensures
        lines_depth_ok(seq![x], parent),
{
    reveal_with_fuel(lines_depth_ok, 3);
    assert(seq![x].drop_last() =~= Seq::<LineModel>::empty());
    assert(seq![x].last() == x);
}

/// A two-line sequence that sits correctly is depth-consistent.
proof fn lemma_lines_depth_two(x: LineModel, y: LineModel, parent: nat)
    requires
        line_depth_ok(x, parent),
        line_depth_ok(y, parent),
    ensures
        lines_depth_ok(seq![x, y], parent),
{
    assert(seq![x, y].drop_last() =~= seq![x]);
    lemma_lines_depth_one(x, parent);
    assert(seq![x, y].last() == y);
}

/// Every statement and header text a construct lowers to has
/// balanced braces, provided the construct's own tokens hold none.
pub proof fn lemma_gen_stmt_balanced(ctr: nat, indent: nat, e: Expr)
    requires
        tokens_brace_free(e),
    ensures
        lines_texts_balanced(gen_stmt(ctr, indent, e).lines),
    decreases e, 2nat, 2nat,
{
    reveal_strlit("const ");
    reveal_strlit(" ");
    reveal_strlit(" = ");
    reveal_strlit(";");
    reveal_strlit("cout << ");
    reveal_strlit(" << '\\n';");
    reveal_strlit("if (");
    reveal_strlit(") ");
    reveal_strlit("else ");
    reveal_strlit("for (int ");
    reveal_strlit(" = 0; ");
    reveal_strlit(" < ");
    reveal_strlit("; ");
    reveal_strlit("++) ");
    reveal_strlit("auto ");
    reveal_strlit(" = [&](");
    reveal_strlit(") -> auto ");
    lemma_brace_free("const "@);
    lemma_brace_free(" "@);
    lemma_brace_free(" = "@);
    lemma_brace_free(";"@);
    lemma_brace_free("cout << "@);
    lemma_brace_free(" << '\\n';"@);
    lemma_brace_free("if ("@);
    lemma_brace_free(") "@);
    lemma_brace_free("else "@);
    lemma_brace_free("for (int "@);
    lemma_brace_free(" = 0; "@);
    lemma_brace_free(" < "@);
    lemma_brace_free("; "@);
    lemma_brace_free("++) "@);
    lemma_brace_free("auto "@);
    lemma_brace_free(" = [&]("@);
    lemma_brace_free(") -> auto "@);
    let g = gen_stmt(ctr, indent, e);
    match e {
        Expr::Assignment(a) => {
            if assign_stmt(a) is Ok {
                lemma_val_text_balanced(*a.value);
                lemma_type_text_brace_free(a.target.associated_type);
                let c0 = if a.const_var {
                    "const "@
                } else {
                    Seq::<char>::empty()
                };
                let ty = type_text(a.target.associated_type);
                let v = val_text(*a.value)->Ok_0;
                lemma_balanced_add(c0, ty);
                lemma_balanced_add(c0 + ty, " "@);
                lemma_balanced_add(c0 + ty + " "@, a.target.name@);
                lemma_balanced_add(c0 + ty + " "@ + a.target.name@, " = "@);
                lemma_balanced_add(c0 + ty + " "@ + a.target.name@ + " = "@, v);
                lemma_balanced_add(c0 + ty + " "@ + a.target.name@ + " = "@ + v, ";"@);
                lemma_lines_balanced_one(LineModel::Statement(assign_stmt(a)->Ok_0));
            }
        },
        Expr::Reassignment(re) => {
            if reassign_stmt(re) is Ok {
                lemma_val_text_balanced(*re.value);
                let v = val_text(*re.value)->Ok_0;
                lemma_balanced_add(re.target@, " = "@);
                lemma_balanced_add(re.target@ + " = "@, v);
                lemma_balanced_add(re.target@ + " = "@ + v, ";"@);
                lemma_lines_balanced_one(LineModel::Statement(reassign_stmt(re)->Ok_0));
            }
        },
        Expr::Print(p) => {
            if print_stmt(p) is Ok {
                lemma_val_text_balanced(*p.arg);
                let v = val_text(*p.arg)->Ok_0;
                lemma_balanced_add("cout << "@, v);
                lemma_balanced_add("cout << "@ + v, " << '\\n';"@);
                lemma_lines_balanced_one(LineModel::Statement(print_stmt(p)->Ok_0));
            }
        },
        Expr::If(i) => {
            if val_text(*i.condition) is Ok {
                lemma_val_text_balanced(*i.condition);
                let c = val_text(*i.condition)->Ok_0;
                lemma_balanced_add("if ("@, c);
                lemma_balanced_add("if ("@ + c, ") "@);
                let tb = gen_stmts(ctr, indent + 1, i.then_block@);
                lemma_gen_seq_balanced(ctr, indent + 1, i.then_block@);
                if tb.result is Ok {
                    let then_block = BlockModel {
                        pre_block: Some("if ("@ + c + ") "@),
                        indent_level: indent + 1,
                        lines: tb.lines,
                    };
                    match i.else_block {
                        None => {
                            lemma_lines_balanced_one(LineModel::Nested(then_block));
                        },
                        Some(es) => {
                            lemma_gen_seq_balanced(tb.counter, indent + 1, es@);
                            let eb = gen_stmts(tb.counter, indent + 1, es@);
                            if eb.result is Ok {
                                let else_block = BlockModel {
                                    pre_block: Some("else "@),
                                    indent_level: indent + 1,
                                    lines: eb.lines,
                                };
                                lemma_lines_balanced_two(
                                    LineModel::Nested(then_block),
                                    LineModel::Nested(else_block),
                                );
                            }
                        },
                    }
                }
            }
        },
        Expr::Rep(r) => {
            if val_text(*r.num_iterations) is Ok {
                lemma_val_text_balanced(*r.num_iterations);
                let c = val_text(*r.num_iterations)->Ok_0;
                let name = fresh_name(ctr + 1);
                lemma_fresh_name_brace_free(ctr + 1);
                lemma_balanced_add("for (int "@, name);
                lemma_balanced_add("for (int "@ + name, " = 0; "@);
                lemma_balanced_add("for (int "@ + name + " = 0; "@, name);
                lemma_balanced_add("for (int "@ + name + " = 0; "@ + name, " < "@);
                lemma_balanced_add("for (int "@ + name + " = 0; "@ + name + " < "@, c);
                lemma_balanced_add("for (int "@ + name + " = 0; "@ + name + " < "@ + c, "; "@);
                lemma_balanced_add(
                    "for (int "@ + name + " = 0; "@ + name + " < "@ + c + "; "@,
                    name,
                );
                lemma_balanced_add(
                    "for (int "@ + name + " = 0; "@ + name + " < "@ + c + "; "@ + name,
                    "++) "@,
                );
                let bb = gen_stmts(ctr + 1, indent + 1, r.body@);
                lemma_gen_seq_balanced(ctr + 1, indent + 1, r.body@);
                if bb.result is Ok {
                    lemma_lines_balanced_one(
                        LineModel::Nested(
                            BlockModel {
                                pre_block: Some(rep_header(name, c)),
                                indent_level: indent + 1,
                                lines: bb.lines,
                            },
                        ),
                    );
                }
            }
        },
        Expr::FunctionDef(f) => {
            if params_text(f.args@) is Ok {
                lemma_params_text_brace_free(f.args@);
                let ps = params_text(f.args@)->Ok_0;
                lemma_balanced_add("auto "@, f.name@);
                lemma_balanced_add("auto "@ + f.name@, " = [&]("@);
                lemma_balanced_add("auto "@ + f.name@ + " = [&]("@, ps);
                lemma_balanced_add("auto "@ + f.name@ + " = [&]("@ + ps, ") -> auto "@);
                let bb = gen_stmts(ctr, indent + 1, f.body@);
                lemma_gen_seq_balanced(ctr, indent + 1, f.body@);
                if bb.result is Ok {
                    lemma_lines_balanced_one(
                        LineModel::Nested(
                            BlockModel {
                                pre_block: Some(function_header(f.name@, ps)),
                                indent_level: indent + 1,
                                lines: bb.lines,
                            },
                        ),
                    );
                }
            }
        },
        _ => {},
    }
}

/// Every statement and header text a sequence lowers to has balanced
/// braces, provided the tokens hold none.
pub proof fn lemma_gen_seq_balanced(ctr: nat, indent: nat, es: Seq<Expr>)
    requires
        tokens_brace_free_seq(es),
    ensures
        lines_texts_balanced(gen_stmts(ctr, indent, es).lines),
    decreases es, 3nat, 2nat,
{
    if es.len() > 0 {
        lemma_gen_stmt_balanced(ctr, indent, es[0]);
        let h = gen_stmt(ctr, indent, es[0]);
        if h.result is Ok {
            lemma_gen_seq_balanced(h.counter, indent, es.subrange(1, es.len() as int));
            lemma_lines_texts_balanced_add(
                h.lines,
                gen_stmts(h.counter, indent, es.subrange(1, es.len() as int)).lines,
            );
        }
    }
}

/// Every nested block a construct lowers to sits exactly one level
/// below the enclosing block, all the way down.
pub proof fn lemma_gen_stmt_depth(ctr: nat, indent: nat, e: Expr)
    ensures
        lines_depth_ok(gen_stmt(ctr, indent, e).lines, indent),
    decreases e, 2nat, 3nat,
{
    match e {
        Expr::Assignment(a) => {
            if assign_stmt(a) is Ok {
                lemma_lines_depth_one(LineModel::Statement(assign_stmt(a)->Ok_0), indent);
            }
        },
        Expr::Reassignment(re) => {
            if reassign_stmt(re) is Ok {
                lemma_lines_depth_one(LineModel::Statement(reassign_stmt(re)->Ok_0), indent);
            }
        },
        Expr::Print(p) => {
            if print_stmt(p) is Ok {
                lemma_lines_depth_one(LineModel::Statement(print_stmt(p)->Ok_0), indent);
            }
        },
        Expr::If(i) => {
            if val_text(*i.condition) is Ok {
                let c = val_text(*i.condition)->Ok_0;
                let tb = gen_stmts(ctr, indent + 1, i.then_block@);
                lemma_gen_seq_depth(ctr, indent + 1, i.then_block@);
                if tb.result is Ok {
                    let then_block = BlockModel {
                        pre_block: Some("if ("@ + c + ") "@),
                        indent_level: indent + 1,
                        lines: tb.lines,
                    };
                    match i.else_block {
                        None => {
                            lemma_lines_depth_one(LineModel::Nested(then_block), indent);
                        },
                        Some(es) => {
                            lemma_gen_seq_depth(tb.counter, indent + 1, es@);
                            let eb = gen_stmts(tb.counter, indent + 1, es@);
                            if eb.result is Ok {
                                let else_block = BlockModel {
                                    pre_block: Some("else "@),
                                    indent_level: indent + 1,
                                    lines: eb.lines,
                                };
                                lemma_lines_depth_two(
                                    LineModel::Nested(then_block),
                                    LineModel::Nested(else_block),
                                    indent,
                                );
                            }
                        },
                    }
                }
            }
        },
        Expr::Rep(r) => {
            if val_text(*r.num_iterations) is Ok {
                let bb = gen_stmts(ctr + 1, indent + 1, r.body@);
                lemma_gen_seq_depth(ctr + 1, indent + 1, r.body@);
                if bb.result is Ok {
                    lemma_lines_depth_one(
                        LineModel::Nested(
                            BlockModel {
                                pre_block: Some(
                                    rep_header(
                                        fresh_name(ctr + 1),
                                        val_text(*r.num_iterations)->Ok_0,
                                    ),
                                ),
                                indent_level: indent + 1,
                                lines: bb.lines,
                            },
                        ),
                        indent,
                    );
                }
            }
        },
        Expr::FunctionDef(f) => {
            if params_text(f.args@) is Ok {
                let bb = gen_stmts(ctr, indent + 1, f.body@);
                lemma_gen_seq_depth(ctr, indent + 1, f.body@);
                if bb.result is Ok {
                    lemma_lines_depth_one(
                        LineModel::Nested(
                            BlockModel {
                                pre_block: Some(
                                    function_header(f.name@, params_text(f.args@)->Ok_0),
                                ),
                                indent_level: indent + 1,
                                lines: bb.lines,
                            },
                        ),
                        indent,
                    );
                }
            }
        },
        _ => {},
    }
}

/// Every nested block a sequence lowers to sits exactly one level
/// below the enclosing block.
pub proof fn lemma_gen_seq_depth(ctr: nat, indent: nat, es: Seq<Expr>)
    ensures
        lines_depth_ok(gen_stmts(ctr, indent, es).lines, indent),
    decreases es, 3nat, 3nat,
{
    if es.len() > 0 {
        lemma_gen_stmt_depth(ctr, indent, es[0]);
        let h = gen_stmt(ctr, indent, es[0]);
        if h.result is Ok {
            lemma_gen_seq_depth(h.counter, indent, es.subrange(1, es.len() as int));
            lemma_lines_depth_ok_add(
                h.lines,
                gen_stmts(h.counter, indent, es.subrange(1, es.len() as int)).lines,
                indent,
            );
        }
    }
}

/// The generated tree is depth-consistent: every block's indentation
/// depth is exactly one greater than its parent's, starting from the
/// program body at depth zero.
pub proof fn lemma_generated_tree_depth_consistent(es: Seq<Expr>)
    ensures
        block_depth_ok(
            BlockModel {
                pre_block: Some("void solve() "@),
                indent_level: 0,
                lines: gen_stmts(0, 0, es).lines,
            },
        ),
{
    lemma_gen_seq_depth(0, 0, es);
}

/// Generation of a program whose names, operator tokens and textual
/// literals hold no brace characters produces syntactically balanced
/// block text: in the rendered body every opened brace has exactly
/// one matching close.
pub proof fn lemma_generated_text_balanced(es: Seq<Expr>)
    requires
        tokens_brace_free_seq(es),
    ensures
        braces_balanced(
            render_block(
                BlockModel {
                    pre_block: Some("void solve() "@),
                    indent_level: 0,
                    lines: gen_stmts(0, 0, es).lines,
                },
            ),
        ),
{
    lemma_gen_seq_balanced(0, 0, es);
    reveal_strlit("void solve() ");
    lemma_brace_free("void solve() "@);
    lemma_render_block_balanced(
        BlockModel {
            pre_block: Some("void solve() "@),
            indent_level: 0,
            lines: gen_stmts(0, 0, es).lines,
        },
    );
}

} // verus!



