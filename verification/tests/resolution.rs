use psl::ast::{
    Block, Expression, ExpressionOrBlock, IfExpression, LetStatement, NameExpression, Program,
    ReadExpression, Statement, Type,
};
use psl::names::temp_name;
use psl::resolve::resolve_program;

fn read(t: Type) -> Expression {
    Expression::Read(ReadExpression::Type(t))
}

fn name(s: &str) -> Expression {
    Expression::Name(NameExpression { name: s.to_string() })
}

fn let_stmt(n: &str, t: Type, v: usize) -> Statement {
    Statement::Let(LetStatement { name: n.to_string(), ty: t, value: v })
}

/// An `if` opens two fresh subscopes of the enclosing scope, one per
/// branch, even when the negative branch is entirely absent.
#[test]
fn if_always_creates_two_subscopes() {
    let p = Program {
        exprs: vec![
            read(Type::Bool),
            name("x"),
            Expression::If(IfExpression {
                condition: 1,
                positive: ExpressionOrBlock::Block(Block {
                    statements: vec![],
                    last_expression: None,
                }),
                negative: None,
            }),
        ],
        body: Block {
            statements: vec![let_stmt("x", Type::Bool, 0), Statement::Expression(2)],
            last_expression: None,
        },
    };
    let nr = resolve_program(&p).unwrap();
    assert_eq!(nr.scopes.len(), 3);
    assert_eq!(nr.scopes[0].parent, None);
    assert_eq!(nr.scopes[1].parent, Some(0));
    assert_eq!(nr.scopes[2].parent, Some(0));
    assert!(nr.scopes[1].bindings.is_empty());
    assert!(nr.scopes[2].bindings.is_empty());
}

/// Every expression node of the program gets a recorded scope.
#[test]
fn resolution_records_a_scope_for_every_node() {
    let p = Program {
        exprs: vec![
            read(Type::Bool),
            name("x"),
            read(Type::Int),
            read(Type::Int),
            Expression::If(IfExpression {
                condition: 1,
                positive: ExpressionOrBlock::Expression(2),
                negative: Some(ExpressionOrBlock::Expression(3)),
            }),
        ],
        body: Block {
            statements: vec![let_stmt("x", Type::Bool, 0), Statement::Expression(4)],
            last_expression: None,
        },
    };
    let nr = resolve_program(&p).unwrap();
    assert_eq!(nr.of_node.len(), 5);
    for entry in &nr.of_node {
        assert!(entry.is_some());
    }
}

#[test]
fn temp_names_render_the_counter_in_decimal() {
    assert_eq!(temp_name(0), "tmp_0");
    assert_eq!(temp_name(7), "tmp_7");
    assert_eq!(temp_name(42), "tmp_42");
    assert_eq!(temp_name(1234567890), "tmp_1234567890");
}

#[test]
fn temp_names_of_distinct_counters_differ() {
    assert_ne!(temp_name(1), temp_name(10));
    assert_ne!(temp_name(0), temp_name(100));
    assert_ne!(temp_name(12), temp_name(21));
}
