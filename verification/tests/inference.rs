use psl::ast::{
    BinaryOperator, BinaryOperatorExpression, Block, Expression, ExpressionOrBlock, IfExpression,
    LetStatement, NameExpression, Program, ReadExpression, Statement, Type,
};
use psl::errors::CompileError;
use psl::infer::infer_expr;
use psl::resolve::resolve_program;
use psl::scope::{lookup, Binding, Scope};

fn read(t: Type) -> Expression {
    Expression::Read(ReadExpression::Type(t))
}

fn name(s: &str) -> Expression {
    Expression::Name(NameExpression { name: s.to_string() })
}

fn let_stmt(n: &str, t: Type, v: usize) -> Statement {
    Statement::Let(LetStatement { name: n.to_string(), ty: t, value: v })
}

fn binop(l: usize, op: BinaryOperator, r: usize) -> Expression {
    Expression::BinaryOperator(BinaryOperatorExpression { lhs: l, operator: op, rhs: r })
}

#[test]
fn union_of_equal_types_is_that_type() {
    assert_eq!(Type::Int.union_with(Type::Int), Ok(Type::Int));
    assert_eq!(Type::Unit.union_with(Type::Unit), Ok(Type::Unit));
    assert_eq!(Type::Str.union_with(Type::Str), Ok(Type::Str));
}

#[test]
fn union_of_distinct_types_fails_naming_both() {
    assert_eq!(
        Type::Int.union_with(Type::Str),
        Err(CompileError::TypeMismatch(Type::Int, Type::Str))
    );
    assert_eq!(
        Type::Int.union_with(Type::Unit),
        Err(CompileError::TypeMismatch(Type::Int, Type::Unit))
    );
    assert_eq!(
        Type::Unit.union_with(Type::Bool),
        Err(CompileError::TypeMismatch(Type::Unit, Type::Bool))
    );
}

#[test]
fn infer_if_unions_arm_types() {
    let p = Program {
        exprs: vec![
            read(Type::Bool),
            name("x"),
            read(Type::Int),
            read(Type::Int),
            Expression::If(IfExpression {
                condition: 1,
                positive: ExpressionOrBlock::Expression(2),
                negative: Some(ExpressionOrBlock::Expression(3)),
            }),
        ],
        body: Block {
            statements: vec![let_stmt("x", Type::Bool, 0), Statement::Expression(4)],
            last_expression: None,
        },
    };
    let nr = resolve_program(&p).unwrap();
    assert_eq!(infer_expr(&p.exprs, &nr, 4), Ok(Type::Int));
    let f = IfExpression {
        condition: 1,
        positive: ExpressionOrBlock::Expression(2),
        negative: Some(ExpressionOrBlock::Expression(3)),
    };
    assert_eq!(f.infer_type(&p.exprs, &nr), Ok(Type::Int));
}

#[test]
fn infer_name_uses_innermost_binding() {
    // let x: Int = <int>; if (<bool>) { let x: Bool = <bool>; x } — the
    // trailing name sees the inner, shadowing binding.
    let p = Program {
        exprs: vec![
            read(Type::Int),
            read(Type::Bool),
            read(Type::Bool),
            name("x"),
            Expression::If(IfExpression {
                condition: 1,
                positive: ExpressionOrBlock::Block(Block {
                    statements: vec![let_stmt("x", Type::Bool, 2)],
                    last_expression: Some(3),
                }),
                negative: None,
            }),
        ],
        body: Block {
            statements: vec![let_stmt("x", Type::Int, 0), Statement::Expression(4)],
            last_expression: None,
        },
    };
    let nr = resolve_program(&p).unwrap();
    assert_eq!(infer_expr(&p.exprs, &nr, 3), Ok(Type::Bool));
}

#[test]
fn infer_name_walks_outward_to_enclosing_scope() {
    // let y: Str = <str>; if (<bool>) { y } — the branch finds the outer
    // binding by walking outward.
    let p = Program {
        exprs: vec![
            read(Type::Str),
            read(Type::Bool),
            name("y"),
            Expression::If(IfExpression {
                condition: 1,
                positive: ExpressionOrBlock::Block(Block {
                    statements: vec![],
                    last_expression: Some(2),
                }),
                negative: None,
            }),
        ],
        body: Block {
            statements: vec![let_stmt("y", Type::Str, 0), Statement::Expression(3)],
            last_expression: None,
        },
    };
    let nr = resolve_program(&p).unwrap();
    assert_eq!(infer_expr(&p.exprs, &nr, 2), Ok(Type::Str));
}

#[test]
fn operator_table_arithmetic_int() {
    let p = Program {
        exprs: vec![read(Type::Int), name("a"), name("a"), binop(1, BinaryOperator::Add, 2)],
        body: Block {
            statements: vec![let_stmt("a", Type::Int, 0), Statement::Expression(3)],
            last_expression: None,
        },
    };
    let nr = resolve_program(&p).unwrap();
    assert_eq!(infer_expr(&p.exprs, &nr, 3), Ok(Type::Int));
}

#[test]
fn operator_table_comparison_yields_bool() {
    let p = Program {
        exprs: vec![read(Type::Int), name("a"), name("a"), binop(1, BinaryOperator::Less, 2)],
        body: Block {
            statements: vec![let_stmt("a", Type::Int, 0), Statement::Expression(3)],
            last_expression: None,
        },
    };
    let nr = resolve_program(&p).unwrap();
    assert_eq!(infer_expr(&p.exprs, &nr, 3), Ok(Type::Bool));
}

#[test]
fn operator_table_equality_on_strings() {
    let p = Program {
        exprs: vec![read(Type::Str), name("s"), name("s"), binop(1, BinaryOperator::Equal, 2)],
        body: Block {
            statements: vec![let_stmt("s", Type::Str, 0), Statement::Expression(3)],
            last_expression: None,
        },
    };
    let nr = resolve_program(&p).unwrap();
    assert_eq!(infer_expr(&p.exprs, &nr, 3), Ok(Type::Bool));
}

#[test]
fn operator_table_rejects_logical_and_on_int() {
    let p = Program {
        exprs: vec![
            read(Type::Int),
            name("a"),
            name("a"),
            binop(1, BinaryOperator::LogicalAnd, 2),
        ],
        body: Block {
            statements: vec![let_stmt("a", Type::Int, 0), Statement::Expression(3)],
            last_expression: None,
        },
    };
    let nr = resolve_program(&p).unwrap();
    assert_eq!(
        infer_expr(&p.exprs, &nr, 3),
        Err(CompileError::OperatorUndefined(BinaryOperator::LogicalAnd, Type::Int, Type::Int))
    );
}

#[test]
fn operator_table_rejects_mixed_arithmetic() {
    let p = Program {
        exprs: vec![
            read(Type::Int),
            read(Type::Bool),
            name("a"),
            name("b"),
            binop(2, BinaryOperator::Modulus, 3),
        ],
        body: Block {
            statements: vec![
                let_stmt("a", Type::Int, 0),
                let_stmt("b", Type::Bool, 1),
                Statement::Expression(4),
            ],
            last_expression: None,
        },
    };
    let nr = resolve_program(&p).unwrap();
    let err = infer_expr(&p.exprs, &nr, 4).unwrap_err();
    assert_eq!(
        err,
        CompileError::OperatorUndefined(BinaryOperator::Modulus, Type::Int, Type::Bool)
    );
    assert!(err.is_type_error());
}

#[test]
fn missing_scope_entry_is_internal() {
    let exprs = vec![name("x")];
    let nr = psl::resolve::NamesResolved {
        scopes: vec![Scope { parent: None, bindings: vec![] }],
        of_node: vec![None],
    };
    let err = infer_expr(&exprs, &nr, 0).unwrap_err();
    assert_eq!(err, CompileError::MissingScope(0));
    assert!(err.is_internal());
    assert!(!err.is_name_resolution_error());
}

#[test]
fn unbound_resolved_name_is_internal() {
    let exprs = vec![name("x")];
    let nr = psl::resolve::NamesResolved {
        scopes: vec![Scope { parent: None, bindings: vec![] }],
        of_node: vec![Some(0)],
    };
    let err = infer_expr(&exprs, &nr, 0).unwrap_err();
    assert_eq!(err, CompileError::UnboundName("x".to_string()));
    assert!(err.is_internal());
}

#[test]
fn lookup_prefers_inner_scope_and_walks_outward() {
    let scopes = vec![
        Scope {
            parent: None,
            bindings: vec![
                Binding { name: "x".to_string(), ty: Type::Int },
                Binding { name: "y".to_string(), ty: Type::Str },
            ],
        },
        Scope {
            parent: Some(0),
            bindings: vec![Binding { name: "x".to_string(), ty: Type::Bool }],
        },
    ];
    // inner scope shadows
    assert_eq!(lookup(&scopes, 1, &"x".to_string()), Some(Type::Bool));
    // outer scope unaffected outside the subtree
    assert_eq!(lookup(&scopes, 0, &"x".to_string()), Some(Type::Int));
    // not bound locally: found by walking outward
    assert_eq!(lookup(&scopes, 1, &"y".to_string()), Some(Type::Str));
    // bound nowhere
    assert_eq!(lookup(&scopes, 1, &"z".to_string()), None);
}
