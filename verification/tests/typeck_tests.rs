use bbl::ast::AssignmentExpr;
use bbl::ast::BinOpExpr;
use bbl::ast::Expr;
use bbl::ast::FunctionDef;
use bbl::ast::IfExpr;
use bbl::ast::ListExpr;
use bbl::ast::MethodCallExpr;
use bbl::ast::PrintExpr;
use bbl::ast::Program;
use bbl::ast::ReassignmentExpr;
use bbl::ast::RepExpr;
use bbl::ast::Type;
use bbl::ast::TypedIdentifier;
use bbl::ast::UnOpExpr;
use bbl::ast::type_eq;
use bbl::typeck::TypeChecker;
use bbl::typeck::TypeErrorKind;

fn assign(name: &str, ty: Type, value: Expr) -> Expr {
    Expr::Assignment(AssignmentExpr {
        target: TypedIdentifier { name: name.to_string(), associated_type: ty },
        value: Box::new(value),
        const_var: false,
    })
}

fn binop(op: &str, left: Expr, right: Expr) -> Expr {
    Expr::BinOp(BinOpExpr { op: op.to_string(), left: Box::new(left), right: Box::new(right) })
}

#[test]
fn assignment_of_sum_checks_as_int() {
    // let x: Int = 3 + 4; print(x);
    let binding = assign("x", Type::Int, binop("+", Expr::Integer(3), Expr::Integer(4)));
    let mut checker = TypeChecker::new();
    let t = checker.check_expr(&binding).unwrap();
    assert!(type_eq(&t, &Type::Int));
    let program = Program {
        expressions: vec![
            assign("x", Type::Int, binop("+", Expr::Integer(3), Expr::Integer(4))),
            Expr::Print(PrintExpr { arg: Box::new(Expr::Identifier("x".to_string())) }),
        ],
    };
    let mut checker = TypeChecker::new();
    assert!(checker.check_program(&program).is_ok());
}

#[test]
fn equality_comparison_checks_as_bool() {
    // let b: Bool = 1 == 1;
    let mut checker = TypeChecker::new();
    let cmp = binop("==", Expr::Integer(1), Expr::Integer(1));
    let t = checker.check_expr(&cmp).unwrap();
    assert!(type_eq(&t, &Type::Bool));
    let b = assign("b", Type::Bool, binop("==", Expr::Integer(1), Expr::Integer(1)));
    assert!(checker.check_expr(&b).is_ok());
}

#[test]
fn heterogeneous_list_fails_with_type_mismatch() {
    // let xs: List(Int) = [1, 2, "a"];
    let list = Expr::ListLit(ListExpr {
        elems: vec![Expr::Integer(1), Expr::Integer(2), Expr::Str("a".to_string())],
    });
    let bad = assign("xs", Type::List(Box::new(Type::Int)), list);
    let mut checker = TypeChecker::new();
    let err = checker.check_expr(&bad).unwrap_err();
    assert_eq!(err.kind, TypeErrorKind::TypeMismatch);
    // the failing binding left nothing behind
    let mut after = checker.check_expr(&Expr::Identifier("xs".to_string()));
    assert_eq!(after.as_mut().unwrap_err().kind, TypeErrorKind::UndefinedVariable);
}

#[test]
fn reassignment_of_unbound_name_is_undefined_variable() {
    // y = 5;
    let re = Expr::Reassignment(ReassignmentExpr {
        target: "y".to_string(),
        value: Box::new(Expr::Integer(5)),
    });
    let mut checker = TypeChecker::new();
    let err = checker.check_expr(&re).unwrap_err();
    assert_eq!(err.kind, TypeErrorKind::UndefinedVariable);
}

#[test]
fn reassignment_with_other_type_is_mismatch() {
    let mut checker = TypeChecker::new();
    assert!(checker.check_expr(&assign("x", Type::Int, Expr::Integer(1))).is_ok());
    let re = Expr::Reassignment(ReassignmentExpr {
        target: "x".to_string(),
        value: Box::new(Expr::Str("s".to_string())),
    });
    let err = checker.check_expr(&re).unwrap_err();
    assert_eq!(err.kind, TypeErrorKind::TypeMismatch);
}

#[test]
fn assignment_mismatch_leaves_no_binding() {
    let mut checker = TypeChecker::new();
    let bad = assign("x", Type::Int, Expr::Str("s".to_string()));
    let err = checker.check_expr(&bad).unwrap_err();
    assert_eq!(err.kind, TypeErrorKind::TypeMismatch);
    let after = checker.check_expr(&Expr::Identifier("x".to_string())).unwrap_err();
    assert_eq!(after.kind, TypeErrorKind::UndefinedVariable);
}

#[test]
fn arithmetic_on_strings_is_unsupported_operator() {
    let mut checker = TypeChecker::new();
    let bad = binop("+", Expr::Str("a".to_string()), Expr::Str("b".to_string()));
    let err = checker.check_expr(&bad).unwrap_err();
    assert_eq!(err.kind, TypeErrorKind::UnsupportedOperator);
}

#[test]
fn unknown_operator_is_reported() {
    let mut checker = TypeChecker::new();
    let bad = binop("%", Expr::Integer(1), Expr::Integer(2));
    let err = checker.check_expr(&bad).unwrap_err();
    assert_eq!(err.kind, TypeErrorKind::UnknownOperator);
}

#[test]
fn binop_type_mismatch_is_reported_before_operator() {
    let mut checker = TypeChecker::new();
    let bad = binop("%", Expr::Integer(1), Expr::Str("a".to_string()));
    let err = checker.check_expr(&bad).unwrap_err();
    assert_eq!(err.kind, TypeErrorKind::TypeMismatch);
}

#[test]
fn unary_operators_check_their_operand() {
    let mut checker = TypeChecker::new();
    let neg = Expr::UnOp(UnOpExpr { op: "-".to_string(), arg: Box::new(Expr::Integer(3)) });
    assert!(type_eq(&checker.check_expr(&neg).unwrap(), &Type::Int));
    let not = Expr::UnOp(UnOpExpr { op: "!".to_string(), arg: Box::new(Expr::Boolean(true)) });
    assert!(type_eq(&checker.check_expr(&not).unwrap(), &Type::Bool));
    let bad = Expr::UnOp(UnOpExpr { op: "!".to_string(), arg: Box::new(Expr::Integer(3)) });
    assert_eq!(checker.check_expr(&bad).unwrap_err().kind, TypeErrorKind::UnsupportedOperator);
    let unknown = Expr::UnOp(UnOpExpr { op: "~".to_string(), arg: Box::new(Expr::Integer(3)) });
    assert_eq!(checker.check_expr(&unknown).unwrap_err().kind, TypeErrorKind::UnknownOperator);
}

#[test]
fn if_condition_must_be_boolean() {
    let mut checker = TypeChecker::new();
    let bad = Expr::If(IfExpr {
        condition: Box::new(Expr::Integer(1)),
        then_block: vec![],
        else_block: None,
    });
    assert_eq!(checker.check_expr(&bad).unwrap_err().kind, TypeErrorKind::InvalidCondition);
}

#[test]
fn rep_count_must_be_int() {
    let mut checker = TypeChecker::new();
    let bad = Expr::Rep(RepExpr { num_iterations: Box::new(Expr::Boolean(true)), body: vec![] });
    assert_eq!(checker.check_expr(&bad).unwrap_err().kind, TypeErrorKind::InvalidLoopCount);
}

#[test]
fn method_calls_are_unsupported() {
    let mut checker = TypeChecker::new();
    let bad = Expr::MethodCall(MethodCallExpr { name: "push".to_string(), args: vec![] });
    assert_eq!(checker.check_expr(&bad).unwrap_err().kind, TypeErrorKind::UnsupportedConstruct);
}

#[test]
fn empty_list_checks_as_list_of_none() {
    let mut checker = TypeChecker::new();
    let empty = Expr::ListLit(ListExpr { elems: vec![] });
    let t = checker.check_expr(&empty).unwrap();
    assert!(type_eq(&t, &Type::List(Box::new(Type::NoneType))));
}

#[test]
fn function_body_bindings_do_not_leak() {
    // a name bound only inside a function body is undefined afterwards
    let body_binding = assign("local", Type::Int, Expr::Integer(1));
    let def = Expr::FunctionDef(FunctionDef {
        name: "f".to_string(),
        args: vec![TypedIdentifier { name: "a".to_string(), associated_type: Type::Int }],
        body: vec![body_binding],
    });
    let mut checker = TypeChecker::new();
    assert!(checker.check_expr(&def).is_ok());
    let local = checker.check_expr(&Expr::Identifier("local".to_string())).unwrap_err();
    assert_eq!(local.kind, TypeErrorKind::UndefinedVariable);
    let param = checker.check_expr(&Expr::Identifier("a".to_string())).unwrap_err();
    assert_eq!(param.kind, TypeErrorKind::UndefinedVariable);
}
