use psl::ast::{
    branch_value, BinaryOperator, BinaryOperatorExpression, Block, Expression, ExpressionOrBlock,
    IfExpression, LetStatement, NameExpression, Program, ReadExpression, Statement, Type,
};
use psl::codegen::{generate_codes, CodegenContext};
use psl::errors::CompileError;
use psl::resolve::resolve_program;

fn read(t: Type) -> Expression {
    Expression::Read(ReadExpression::Type(t))
}

fn name(s: &str) -> Expression {
    Expression::Name(NameExpression { name: s.to_string() })
}

fn let_stmt(n: &str, t: Type, v: usize) -> Statement {
    Statement::Let(LetStatement { name: n.to_string(), ty: t, value: v })
}

fn nested_if_program() -> Program {
    // let x: Bool = <bool>; if (x) { if (x) { <int> } else { <int> } } else { <int> }
    Program {
        exprs: vec![
            read(Type::Bool),
            name("x"),
            name("x"),
            read(Type::Int),
            read(Type::Int),
            Expression::If(IfExpression {
                condition: 2,
                positive: ExpressionOrBlock::Expression(3),
                negative: Some(ExpressionOrBlock::Expression(4)),
            }),
            read(Type::Int),
            Expression::If(IfExpression {
                condition: 1,
                positive: ExpressionOrBlock::Expression(5),
                negative: Some(ExpressionOrBlock::Expression(6)),
            }),
        ],
        body: Block {
            statements: vec![let_stmt("x", Type::Bool, 0), Statement::Expression(7)],
            last_expression: None,
        },
    }
}

#[test]
fn nested_ifs_use_distinct_temporaries() {
    let out = generate_codes(nested_if_program()).unwrap();
    assert_eq!(
        out,
        "bool x = read_bool();\n\
         int tmp_0;\n\
         if (x) {\n\
         int tmp_1;\n\
         if (x) {\n\
         tmp_1 = read_int();\n\
         } else {\n\
         tmp_1 = read_int();\n\
         }\n\
         tmp_0 = tmp_1;\n\
         } else {\n\
         tmp_0 = read_int();\n\
         }\n\
         tmp_0;\n"
    );
}

#[test]
fn sibling_ifs_use_distinct_temporaries() {
    let empty = |c: usize| {
        Expression::If(IfExpression {
            condition: c,
            positive: ExpressionOrBlock::Block(Block { statements: vec![], last_expression: None }),
            negative: None,
        })
    };
    let p = Program {
        exprs: vec![read(Type::Bool), name("x"), empty(1), name("x"), empty(3)],
        body: Block {
            statements: vec![
                let_stmt("x", Type::Bool, 0),
                Statement::Expression(2),
                Statement::Expression(4),
            ],
            last_expression: None,
        },
    };
    let out = generate_codes(p).unwrap();
    assert!(out.contains("tuple0 tmp_0;\n"));
    assert!(out.contains("tuple0 tmp_1;\n"));
    assert_eq!(
        out,
        "bool x = read_bool();\n\
         tuple0 tmp_0;\n\
         if (x) {\n\
         tmp_0 = tuple0 {};\n\
         } else {\n\
         tmp_0 = tuple0 {};\n\
         }\n\
         tmp_0;\n\
         tuple0 tmp_1;\n\
         if (x) {\n\
         tmp_1 = tuple0 {};\n\
         } else {\n\
         tmp_1 = tuple0 {};\n\
         }\n\
         tmp_1;\n"
    );
}

#[test]
fn codegen_is_reproducible_byte_for_byte() {
    let out1 = generate_codes(nested_if_program()).unwrap();
    let out2 = generate_codes(nested_if_program()).unwrap();
    assert_eq!(out1, out2);
}

#[test]
fn binary_operator_composes_operand_texts() {
    let p = Program {
        exprs: vec![
            read(Type::Int),
            name("a"),
            name("a"),
            Expression::BinaryOperator(BinaryOperatorExpression {
                lhs: 1,
                operator: BinaryOperator::Add,
                rhs: 2,
            }),
        ],
        body: Block {
            statements: vec![let_stmt("a", Type::Int, 0), Statement::Expression(3)],
            last_expression: None,
        },
    };
    let out = generate_codes(p).unwrap();
    assert_eq!(out, "int a = read_int();\n(a + a);\n");
}

#[test]
fn trailing_expression_of_body_is_emitted() {
    let p = Program {
        exprs: vec![read(Type::Int)],
        body: Block { statements: vec![], last_expression: Some(0) },
    };
    let out = generate_codes(p).unwrap();
    assert_eq!(out, "read_int();\n");
}

#[test]
fn empty_program_generates_nothing() {
    let p = Program {
        exprs: vec![],
        body: Block { statements: vec![], last_expression: None },
    };
    let out = generate_codes(p).unwrap();
    assert_eq!(out, "");
}

#[test]
fn block_with_statements_and_trailing_expression() {
    // let x: Bool = <bool>;
    // if (x) { let k: Int = <int>; k } else { <int> }
    let p = Program {
        exprs: vec![
            read(Type::Bool),
            name("x"),
            read(Type::Int),
            name("k"),
            read(Type::Int),
            Expression::If(IfExpression {
                condition: 1,
                positive: ExpressionOrBlock::Block(Block {
                    statements: vec![let_stmt("k", Type::Int, 2)],
                    last_expression: Some(3),
                }),
                negative: Some(ExpressionOrBlock::Expression(4)),
            }),
        ],
        body: Block {
            statements: vec![let_stmt("x", Type::Bool, 0), Statement::Expression(5)],
            last_expression: None,
        },
    };
    let out = generate_codes(p).unwrap();
    assert_eq!(
        out,
        "bool x = read_bool();\n\
         int tmp_0;\n\
         if (x) {\n\
         int k = read_int();\n\
         tmp_0 = k;\n\
         } else {\n\
         tmp_0 = read_int();\n\
         }\n\
         tmp_0;\n"
    );
}

#[test]
fn duplicate_binding_in_one_scope_fails() {
    let p = Program {
        exprs: vec![read(Type::Int), read(Type::Bool)],
        body: Block {
            statements: vec![let_stmt("a", Type::Int, 0), let_stmt("a", Type::Bool, 1)],
            last_expression: None,
        },
    };
    let err = generate_codes(p).unwrap_err();
    assert_eq!(err, CompileError::DuplicateBinding("a".to_string()));
    assert!(err.is_name_resolution_error());
}

#[test]
fn shadowing_in_branch_scope_is_not_a_duplicate() {
    // let a: Int = <int>; if (<bool>) { let a: Bool = <bool>; } — distinct
    // scopes, so re-declaring is allowed.
    let p = Program {
        exprs: vec![
            read(Type::Int),
            read(Type::Bool),
            read(Type::Bool),
            Expression::If(IfExpression {
                condition: 1,
                positive: ExpressionOrBlock::Block(Block {
                    statements: vec![let_stmt("a", Type::Bool, 2)],
                    last_expression: None,
                }),
                negative: None,
            }),
        ],
        body: Block {
            statements: vec![let_stmt("a", Type::Int, 0), Statement::Expression(3)],
            last_expression: None,
        },
    };
    assert!(generate_codes(p).is_ok());
}

#[test]
fn context_records_scopes_by_node() {
    let p = Program {
        exprs: vec![
            read(Type::Bool),
            name("x"),
            read(Type::Int),
            read(Type::Int),
            Expression::If(IfExpression {
                condition: 1,
                positive: ExpressionOrBlock::Expression(2),
                negative: Some(ExpressionOrBlock::Expression(3)),
            }),
        ],
        body: Block {
            statements: vec![let_stmt("x", Type::Bool, 0), Statement::Expression(4)],
            last_expression: None,
        },
    };
    let nr = resolve_program(&p).unwrap();
    let ctx = CodegenContext::new(nr);
    // the let's value, the condition and the if itself sit in the root scope
    assert_eq!(ctx.scope(0), Some(0));
    assert_eq!(ctx.scope(1), Some(0));
    assert_eq!(ctx.scope(4), Some(0));
    // each arm sits in its own fresh subscope
    assert_eq!(ctx.scope(2), Some(1));
    assert_eq!(ctx.scope(3), Some(2));
    // out of range: nothing recorded
    assert_eq!(ctx.scope(99), None);
}

#[test]
fn branch_value_selects_the_value_expression() {
    assert_eq!(branch_value(&ExpressionOrBlock::Expression(5)), Some(5));
    assert_eq!(
        branch_value(&ExpressionOrBlock::Block(Block {
            statements: vec![],
            last_expression: Some(2),
        })),
        Some(2)
    );
    assert_eq!(
        branch_value(&ExpressionOrBlock::Block(Block {
            statements: vec![],
            last_expression: None,
        })),
        None
    );
}

#[test]
fn every_operator_token_is_emitted() {
    let cases = vec![
        (BinaryOperator::Add, Type::Int, "(a + a)"),
        (BinaryOperator::Subtract, Type::Int, "(a - a)"),
        (BinaryOperator::Multiply, Type::Int, "(a * a)"),
        (BinaryOperator::Divide, Type::Int, "(a / a)"),
        (BinaryOperator::Modulus, Type::Int, "(a % a)"),
        (BinaryOperator::Equal, Type::Int, "(a == a)"),
        (BinaryOperator::NotEqual, Type::Int, "(a != a)"),
        (BinaryOperator::Less, Type::Int, "(a < a)"),
        (BinaryOperator::Greater, Type::Int, "(a > a)"),
        (BinaryOperator::LessEqual, Type::Int, "(a <= a)"),
        (BinaryOperator::GreaterEqual, Type::Int, "(a >= a)"),
        (BinaryOperator::LogicalAnd, Type::Bool, "(a && a)"),
        (BinaryOperator::LogicalOr, Type::Bool, "(a || a)"),
    ];
    for (op, ty, expected) in cases {
        let p = Program {
            exprs: vec![
                read(ty),
                name("a"),
                name("a"),
                Expression::BinaryOperator(BinaryOperatorExpression {
                    lhs: 1,
                    operator: op,
                    rhs: 2,
                }),
            ],
            body: Block {
                statements: vec![let_stmt("a", ty, 0), Statement::Expression(3)],
                last_expression: None,
            },
        };
        let out = generate_codes(p).unwrap();
        assert!(out.contains(expected), "missing {expected} in {out}");
    }
}
