use bbl::ast::AssignmentExpr;
use bbl::ast::BinOpExpr;
use bbl::ast::Expr;
use bbl::ast::FunctionDef;
use bbl::ast::IfExpr;
use bbl::ast::ListExpr;
use bbl::ast::MethodCallExpr;
use bbl::ast::PrintExpr;
use bbl::ast::Program;
use bbl::ast::ReassignmentExpr;
use bbl::ast::RepExpr;
use bbl::ast::ReturnExpr;
use bbl::ast::Type;
use bbl::ast::TypedIdentifier;
use bbl::ast::UnOpExpr;
use bbl::codegen::GenErrorKind;
use bbl::codegen::generate;

const PREAMBLE: &str = "\n#include <bits/stdc++.h>\nusing namespace std;\nusing ll = long long;\n";
const ENTRY: &str = "\nint main() {\n    cin.tie(0)->sync_with_stdio(false);\n    solve();\n    return 0;\n}";

fn whole(solve: &str) -> String {
    format!("{}{}{}", PREAMBLE, solve, ENTRY)
}

fn assign(name: &str, ty: Type, value: Expr) -> Expr {
    Expr::Assignment(AssignmentExpr {
        target: TypedIdentifier { name: name.to_string(), associated_type: ty },
        value: Box::new(value),
        const_var: false,
    })
}

fn print(value: Expr) -> Expr {
    Expr::Print(PrintExpr { arg: Box::new(value) })
}

#[test]
fn empty_program_emits_empty_solve_body() {
    let program = Program { expressions: vec![] };
    assert_eq!(generate(&program).unwrap(), whole("void solve() {\n\n}"));
}

#[test]
fn assignment_and_print_lower_to_declaration_and_output() {
    // let x: Int = 3 + 4; print(x);
    let program = Program {
        expressions: vec![
            assign(
                "x",
                Type::Int,
                Expr::BinOp(BinOpExpr {
                    op: "+".to_string(),
                    left: Box::new(Expr::Integer(3)),
                    right: Box::new(Expr::Integer(4)),
                }),
            ),
            print(Expr::Identifier("x".to_string())),
        ],
    };
    let expected = whole(
        "void solve() {\n    int x = 3LL + 4LL;\n    cout << x << '\\n';\n}",
    );
    assert_eq!(generate(&program).unwrap(), expected);
}

#[test]
fn rep_lowers_to_counted_loop_with_fresh_counter() {
    // rep (5) { print(1); }
    let program = Program {
        expressions: vec![Expr::Rep(RepExpr {
            num_iterations: Box::new(Expr::Integer(5)),
            body: vec![print(Expr::Integer(1))],
        })],
    };
    let expected = whole(
        "void solve() {\n    for (int var_1 = 0; var_1 < 5LL; var_1++) {\n        cout << 1LL << '\\n';\n    }\n}",
    );
    assert_eq!(generate(&program).unwrap(), expected);
}

#[test]
fn if_else_lowers_to_two_nested_blocks() {
    // if (true) { print(1); } else { print(0); }
    let program = Program {
        expressions: vec![Expr::If(IfExpr {
            condition: Box::new(Expr::Boolean(true)),
            then_block: vec![print(Expr::Integer(1))],
            else_block: Some(vec![print(Expr::Integer(0))]),
        })],
    };
    let expected = whole(
        "void solve() {\n    if (true) {\n        cout << 1LL << '\\n';\n    }\n    else {\n        cout << 0LL << '\\n';\n    }\n}",
    );
    assert_eq!(generate(&program).unwrap(), expected);
}

#[test]
fn two_loops_get_distinct_counter_names() {
    let looped = |body: Expr| {
        Expr::Rep(RepExpr { num_iterations: Box::new(Expr::Integer(2)), body: vec![body] })
    };
    let program = Program {
        expressions: vec![looped(print(Expr::Integer(1))), looped(print(Expr::Integer(2)))],
    };
    let text = generate(&program).unwrap();
    assert!(text.contains("for (int var_1 = 0; var_1 < 2LL; var_1++)"));
    assert!(text.contains("for (int var_2 = 0; var_2 < 2LL; var_2++)"));
}

#[test]
fn nested_loops_never_reuse_a_counter_name() {
    let inner = Expr::Rep(RepExpr {
        num_iterations: Box::new(Expr::Integer(3)),
        body: vec![print(Expr::Integer(7))],
    });
    let outer = Expr::Rep(RepExpr { num_iterations: Box::new(Expr::Integer(2)), body: vec![inner] });
    let text = generate(&Program { expressions: vec![outer] }).unwrap();
    assert!(text.contains("for (int var_1 = 0; var_1 < 2LL; var_1++)"));
    assert!(text.contains("for (int var_2 = 0; var_2 < 3LL; var_2++)"));
}

#[test]
fn list_assignment_lowers_to_vector_expression() {
    let list = Expr::ListLit(ListExpr {
        elems: vec![Expr::Integer(1), Expr::Integer(2), Expr::Integer(3)],
    });
    let program = Program {
        expressions: vec![assign("xs", Type::List(Box::new(Type::Int)), list)],
    };
    let expected = whole(
        "void solve() {\n    vector<int> xs = vector {1LL, 2LL, 3LL};\n}",
    );
    assert_eq!(generate(&program).unwrap(), expected);
}

#[test]
fn const_binding_carries_immutability_qualifier() {
    let program = Program {
        expressions: vec![Expr::Assignment(AssignmentExpr {
            target: TypedIdentifier { name: "k".to_string(), associated_type: Type::Int },
            value: Box::new(Expr::Integer(9)),
            const_var: true,
        })],
    };
    let expected = whole("void solve() {\n    const int k = 9LL;\n}");
    assert_eq!(generate(&program).unwrap(), expected);
}

#[test]
fn reassignment_lowers_to_plain_assignment() {
    let program = Program {
        expressions: vec![
            assign("x", Type::Int, Expr::Integer(1)),
            Expr::Reassignment(ReassignmentExpr {
                target: "x".to_string(),
                value: Box::new(Expr::Integer(2)),
            }),
        ],
    };
    let expected = whole("void solve() {\n    int x = 1LL;\n    x = 2LL;\n}");
    assert_eq!(generate(&program).unwrap(), expected);
}

#[test]
fn negative_integer_and_unop_lower_inline() {
    let program = Program {
        expressions: vec![
            assign("a", Type::Int, Expr::Integer(-3)),
            assign(
                "b",
                Type::Int,
                Expr::UnOp(UnOpExpr { op: "-".to_string(), arg: Box::new(Expr::Integer(12)) }),
            ),
        ],
    };
    let expected = whole(
        "void solve() {\n    int a = -3LL;\n    int b = -(12LL);\n}",
    );
    assert_eq!(generate(&program).unwrap(), expected);
}

#[test]
fn string_and_float_literals_lower_verbatim() {
    let program = Program {
        expressions: vec![
            assign("s", Type::Str, Expr::Str("hi".to_string())),
            assign("f", Type::Float, Expr::Float("1.5".to_string())),
        ],
    };
    let expected = whole(
        "void solve() {\n    string s = \"hi\";\n    float f = 1.5LL;\n}",
    );
    assert_eq!(generate(&program).unwrap(), expected);
}

#[test]
fn function_def_lowers_to_closure_binding() {
    let def = Expr::FunctionDef(FunctionDef {
        name: "f".to_string(),
        args: vec![
            TypedIdentifier { name: "a".to_string(), associated_type: Type::Int },
            TypedIdentifier { name: "b".to_string(), associated_type: Type::Bool },
        ],
        body: vec![print(Expr::Identifier("a".to_string()))],
    });
    let expected = whole(
        "void solve() {\n    auto f = [&](int a, bool b) -> auto {\n        cout << a << '\\n';\n    }\n}",
    );
    assert_eq!(generate(&Program { expressions: vec![def] }).unwrap(), expected);
}

#[test]
fn return_expression_is_rejected_not_lowered() {
    let program = Program {
        expressions: vec![Expr::Return(ReturnExpr { value: Box::new(Expr::Integer(1)) })],
    };
    let err = generate(&program).unwrap_err();
    assert_eq!(err.kind, GenErrorKind::UnsupportedConstruct);
}

#[test]
fn method_call_and_none_literal_are_rejected() {
    let call = Program {
        expressions: vec![Expr::MethodCall(MethodCallExpr { name: "push".to_string(), args: vec![] })],
    };
    assert_eq!(generate(&call).unwrap_err().kind, GenErrorKind::UnsupportedConstruct);
    let none_lit = Program { expressions: vec![Expr::NoneLit] };
    assert_eq!(generate(&none_lit).unwrap_err().kind, GenErrorKind::UnsupportedConstruct);
}

#[test]
fn statement_form_in_value_position_is_rejected() {
    // print(x = 1): the print argument has no inline value
    let inner = Expr::Reassignment(ReassignmentExpr {
        target: "x".to_string(),
        value: Box::new(Expr::Integer(1)),
    });
    let program = Program { expressions: vec![print(inner)] };
    let err = generate(&program).unwrap_err();
    assert_eq!(err.kind, GenErrorKind::StatementInValuePosition);
}

#[test]
fn tuple_typed_binding_is_rejected() {
    let ty = Type::Tuple(Box::new(bbl::ast::TypeList::Nil));
    let program = Program { expressions: vec![assign("t", ty, Expr::Integer(1))] };
    let err = generate(&program).unwrap_err();
    assert_eq!(err.kind, GenErrorKind::UnsupportedConstruct);
}

#[test]
fn pure_expression_statement_emits_nothing() {
    let program = Program { expressions: vec![Expr::Integer(42)] };
    assert_eq!(generate(&program).unwrap(), whole("void solve() {\n\n}"));
}

#[test]
fn generated_text_has_balanced_braces() {
    let inner_if = Expr::If(IfExpr {
        condition: Box::new(Expr::Boolean(false)),
        then_block: vec![print(Expr::Str("yes".to_string()))],
        else_block: Some(vec![print(Expr::Str("no".to_string()))]),
    });
    let looped = Expr::Rep(RepExpr {
        num_iterations: Box::new(Expr::Integer(4)),
        body: vec![inner_if],
    });
    let program = Program { expressions: vec![looped] };
    let text = generate(&program).unwrap();
    let opens = text.chars().filter(|c| *c == '{').count();
    let closes = text.chars().filter(|c| *c == '}').count();
    assert_eq!(opens, closes);
}

#[test]
fn assignment_value_error_is_reported_before_type_error() {
    // the value is lowered first, so a statement-form value wins over
    // an unlowerable tuple type
    let inner = Expr::Reassignment(ReassignmentExpr {
        target: "y".to_string(),
        value: Box::new(Expr::Integer(1)),
    });
    let ty = Type::Tuple(Box::new(bbl::ast::TypeList::Nil));
    let program = Program { expressions: vec![assign("t", ty, inner)] };
    let err = generate(&program).unwrap_err();
    assert_eq!(err.kind, GenErrorKind::StatementInValuePosition);
}

#[test]
fn failing_construct_appends_no_partial_output() {
    // the statement before the failure lowers; the failing loop must
    // leave no partial block behind, so nothing of it is emitted
    let program = Program {
        expressions: vec![
            assign("x", Type::Int, Expr::Integer(1)),
            Expr::Rep(RepExpr {
                num_iterations: Box::new(Expr::Integer(2)),
                body: vec![Expr::NoneLit],
            }),
        ],
    };
    let err = generate(&program).unwrap_err();
    assert_eq!(err.kind, GenErrorKind::UnsupportedConstruct);
}
