use psl::ast::{
    Block, Expression, ExpressionOrBlock, IfExpression, LetStatement, NameExpression, Program,
    ReadExpression, Statement, Type,
};
use psl::codegen::generate_codes;
use psl::errors::CompileError;

fn read(t: Type) -> Expression {
    Expression::Read(ReadExpression::Type(t))
}

fn name(s: &str) -> Expression {
    Expression::Name(NameExpression { name: s.to_string() })
}

fn let_stmt(n: &str, t: Type, v: usize) -> Statement {
    Statement::Let(LetStatement { name: n.to_string(), ty: t, value: v })
}

fn empty_block() -> ExpressionOrBlock {
    ExpressionOrBlock::Block(Block { statements: vec![], last_expression: None })
}

/// `if (x) { <int> } else { <int> }` with `x: bool`: a declared integer
/// temporary, both branches assign into it, and the construct's value is
/// the temporary's name.
#[test]
fn scenario_if_both_arms_int() {
    let p = Program {
        exprs: vec![
            read(Type::Bool),
            name("x"),
            read(Type::Int),
            read(Type::Int),
            Expression::If(IfExpression {
                condition: 1,
                positive: ExpressionOrBlock::Expression(2),
                negative: Some(ExpressionOrBlock::Expression(3)),
            }),
        ],
        body: Block {
            statements: vec![let_stmt("x", Type::Bool, 0), Statement::Expression(4)],
            last_expression: None,
        },
    };
    let out = generate_codes(p).unwrap();
    assert_eq!(
        out,
        "bool x = read_bool();\n\
         int tmp_0;\n\
         if (x) {\n\
         tmp_0 = read_int();\n\
         } else {\n\
         tmp_0 = read_int();\n\
         }\n\
         tmp_0;\n"
    );
}

/// `if (x) { } else { }`: both branches assign the unit-value literal into
/// a unit-typed temporary.
#[test]
fn scenario_if_empty_blocks() {
    let p = Program {
        exprs: vec![
            read(Type::Bool),
            name("x"),
            Expression::If(IfExpression {
                condition: 1,
                positive: empty_block(),
                negative: Some(empty_block()),
            }),
        ],
        body: Block {
            statements: vec![let_stmt("x", Type::Bool, 0), Statement::Expression(2)],
            last_expression: None,
        },
    };
    let out = generate_codes(p).unwrap();
    assert_eq!(
        out,
        "bool x = read_bool();\n\
         tuple0 tmp_0;\n\
         if (x) {\n\
         tmp_0 = tuple0 {};\n\
         } else {\n\
         tmp_0 = tuple0 {};\n\
         }\n\
         tmp_0;\n"
    );
}

/// `if (x) { <int> } else { <str> }`: a type mismatch naming both arm
/// types, and no generated output.
#[test]
fn scenario_if_mismatched_arms() {
    let p = Program {
        exprs: vec![
            read(Type::Bool),
            name("x"),
            read(Type::Int),
            read(Type::Str),
            Expression::If(IfExpression {
                condition: 1,
                positive: ExpressionOrBlock::Expression(2),
                negative: Some(ExpressionOrBlock::Expression(3)),
            }),
        ],
        body: Block {
            statements: vec![let_stmt("x", Type::Bool, 0), Statement::Expression(4)],
            last_expression: None,
        },
    };
    let err = generate_codes(p).unwrap_err();
    assert_eq!(err, CompileError::TypeMismatch(Type::Int, Type::Str));
    assert!(err.is_type_error());
    assert!(!err.is_name_resolution_error());
    assert!(!err.is_internal());
}

/// `if (x) { <int> }` with the negative branch entirely absent: the
/// negative arm's type defaults to `Unit`, and under the documented union
/// policy a non-unit positive arm is a type mismatch against `Unit`.
#[test]
fn scenario_if_absent_negative_non_unit() {
    let p = Program {
        exprs: vec![
            read(Type::Bool),
            name("x"),
            read(Type::Int),
            Expression::If(IfExpression {
                condition: 1,
                positive: ExpressionOrBlock::Expression(2),
                negative: None,
            }),
        ],
        body: Block {
            statements: vec![let_stmt("x", Type::Bool, 0), Statement::Expression(3)],
            last_expression: None,
        },
    };
    let err = generate_codes(p).unwrap_err();
    assert_eq!(err, CompileError::TypeMismatch(Type::Int, Type::Unit));
    assert!(err.is_type_error());
}

/// `if (x) { }` with the negative branch entirely absent: both arms are
/// unit, and the absent branch emits the unit-value literal.
#[test]
fn scenario_if_absent_negative_unit() {
    let p = Program {
        exprs: vec![
            read(Type::Bool),
            name("x"),
            Expression::If(IfExpression {
                condition: 1,
                positive: empty_block(),
                negative: None,
            }),
        ],
        body: Block {
            statements: vec![let_stmt("x", Type::Bool, 0), Statement::Expression(2)],
            last_expression: None,
        },
    };
    let out = generate_codes(p).unwrap();
    assert_eq!(
        out,
        "bool x = read_bool();\n\
         tuple0 tmp_0;\n\
         if (x) {\n\
         tmp_0 = tuple0 {};\n\
         } else {\n\
         tmp_0 = tuple0 {};\n\
         }\n\
         tmp_0;\n"
    );
}

/// An undeclared identifier anywhere: a name-resolution error, and neither
/// type inference nor code generation runs on the unit (the error is the
/// resolution error itself, not a later pass's).
#[test]
fn scenario_undefined_name() {
    let p = Program {
        exprs: vec![name("y")],
        body: Block { statements: vec![Statement::Expression(0)], last_expression: None },
    };
    let err = generate_codes(p).unwrap_err();
    assert_eq!(err, CompileError::UndefinedName("y".to_string()));
    assert!(err.is_name_resolution_error());
    assert!(!err.is_type_error());
    assert!(!err.is_internal());
}

/// An undeclared identifier deep inside an `if` branch is still found.
#[test]
fn scenario_undefined_name_in_branch() {
    let p = Program {
        exprs: vec![
            read(Type::Bool),
            name("x"),
            name("zed"),
            Expression::If(IfExpression {
                condition: 1,
                positive: ExpressionOrBlock::Block(Block {
                    statements: vec![Statement::Expression(2)],
                    last_expression: None,
                }),
                negative: None,
            }),
        ],
        body: Block {
            statements: vec![let_stmt("x", Type::Bool, 0), Statement::Expression(3)],
            last_expression: None,
        },
    };
    let err = generate_codes(p).unwrap_err();
    assert_eq!(err, CompileError::UndefinedName("zed".to_string()));
    assert!(err.is_name_resolution_error());
}
