use pascal_interpreter::ast::{
    AssignmentNode, BinaryOpNode, BlockNode, CompoundStatementNode, Expr, NumNode, Statement,
    UnaryOpNode, VarNode,
};
use pascal_interpreter::error::RuntimeError;
use pascal_interpreter::helper::interpret_text;
use pascal_interpreter::interpreter::visit_expr;
use pascal_interpreter::lexer::Lexer;
use pascal_interpreter::literal::{Literal, RealOps};
use pascal_interpreter::record::{ARType, ActivationRecord};
use pascal_interpreter::semantic_analyzer::SemanticAnalyzer;
use pascal_interpreter::token::{Token, TokenType};

/// IEEE-754 double-precision arithmetic over bit patterns, as the library
/// expects its host to supply it.
struct HostReals;

impl RealOps for HostReals {
    fn real_from_literal(&self, s: &str) -> u64 {
        s.parse::<f64>().unwrap_or(0.0).to_bits()
    }

    fn real_from_int(&self, i: i64) -> u64 {
        (i as f64).to_bits()
    }

    fn real_add(&self, a: u64, b: u64) -> u64 {
        (f64::from_bits(a) + f64::from_bits(b)).to_bits()
    }

    fn real_sub(&self, a: u64, b: u64) -> u64 {
        (f64::from_bits(a) - f64::from_bits(b)).to_bits()
    }

    fn real_mul(&self, a: u64, b: u64) -> u64 {
        (f64::from_bits(a) * f64::from_bits(b)).to_bits()
    }

    fn real_div(&self, a: u64, b: u64) -> u64 {
        (f64::from_bits(a) / f64::from_bits(b)).to_bits()
    }
}

#[test]
fn test_unexpected_char() {
    let result = interpret_text("PROGRAM T; BEGIN @ END.", &HostReals);
    assert_eq!(result.err(), Some(RuntimeError::UnexpectedChar('@')));
}

#[test]
fn test_unknown_type() {
    let program = "PROGRAM T; VAR x : FOO; BEGIN END.";
    let result = interpret_text(program, &HostReals);
    assert_eq!(result.err(), Some(RuntimeError::UnknownType("FOO".to_string())));
}

#[test]
fn test_undeclared_assignment_rejected() {
    let program = "PROGRAM T; BEGIN a := 1 END.";
    let result = interpret_text(program, &HostReals);
    assert_eq!(result.err(), Some(RuntimeError::UndefinedVariable("a".to_string())));
}

#[test]
fn test_variable_redefinition() {
    let program = "PROGRAM T; VAR a : INTEGER; a : REAL; BEGIN END.";
    let result = interpret_text(program, &HostReals);
    assert_eq!(result.err(), Some(RuntimeError::VariableRedefinition("a".to_string())));
}

#[test]
fn test_redefinition_is_case_insensitive() {
    let program = "PROGRAM T; VAR Alpha : INTEGER; ALPHA : REAL; BEGIN END.";
    let result = interpret_text(program, &HostReals);
    assert_eq!(result.err(), Some(RuntimeError::VariableRedefinition("alpha".to_string())));
}

#[test]
fn test_shadowing_in_nested_scope() {
    let program = r#"
        PROGRAM T;
        VAR a : INTEGER;
            PROCEDURE P;
            VAR a : REAL;
            BEGIN
            END;
        BEGIN
            a := 1;
            P()
        END.
    "#;
    let result = interpret_text(program, &HostReals);
    assert!(result.is_ok());
}

#[test]
fn test_integer_division_by_zero() {
    let program = "PROGRAM T; VAR x : INTEGER; BEGIN x := 1 DIV 0 END.";
    let result = interpret_text(program, &HostReals);
    assert_eq!(result.err(), Some(RuntimeError::DivisionByZero));
}

#[test]
fn test_true_division_by_integer_zero() {
    let program = "PROGRAM T; VAR x : REAL; BEGIN x := 1 / 0 END.";
    let result = interpret_text(program, &HostReals);
    assert_eq!(result.err(), Some(RuntimeError::DivisionByZero));
}

#[test]
fn test_real_zero_divisor_not_checked() {
    let program = "PROGRAM T; VAR x : REAL; BEGIN x := 1 / 0.0 END.";
    let result = interpret_text(program, &HostReals);
    let memory = result.unwrap();
    let frame = memory.iter().find(|f| f.get_name() == "T").unwrap();
    assert_eq!(frame.get_item("x"), Some(&Literal::Float(f64::INFINITY.to_bits())));
}

#[test]
fn test_true_division_yields_real() {
    let program = "PROGRAM T; VAR y : REAL; BEGIN y := 20 / 7 + 3.14 END.";
    let result = interpret_text(program, &HostReals);
    let memory = result.unwrap();
    let frame = memory.iter().find(|f| f.get_name() == "T").unwrap();
    let expected = (20.0f64 / 7.0f64 + 3.14f64).to_bits();
    assert_eq!(frame.get_item("y"), Some(&Literal::Float(expected)));
}

#[test]
fn test_div_of_integers_yields_real() {
    let program = "PROGRAM T; VAR b : INTEGER; BEGIN b := 20 DIV 4 END.";
    let result = interpret_text(program, &HostReals);
    let memory = result.unwrap();
    let frame = memory.iter().find(|f| f.get_name() == "T").unwrap();
    assert_eq!(frame.get_item("b"), Some(&Literal::Float((5.0f64).to_bits())));
}

#[test]
fn test_missing_procedure() {
    let program = "PROGRAM T; BEGIN Foo(1) END.";
    let result = interpret_text(program, &HostReals);
    assert_eq!(result.err(), Some(RuntimeError::MissingProcedure));
}

#[test]
fn test_call_arity_mismatch() {
    let program = r#"
        PROGRAM T;
            PROCEDURE Alpha(a : INTEGER; b : INTEGER);
            BEGIN
            END;
        BEGIN
            Alpha(1)
        END.
    "#;
    let result = interpret_text(program, &HostReals);
    assert_eq!(result.err(), Some(RuntimeError::MissingArgument));
}

#[test]
fn test_trace_order_innermost_first() {
    let program = r#"
        PROGRAM Main;
            PROCEDURE Outer;
                PROCEDURE Inner;
                BEGIN
                END;
            BEGIN
                Inner()
            END;
        BEGIN
            Outer()
        END.
    "#;
    let memory = interpret_text(program, &HostReals).unwrap();
    let inner = memory.iter().position(|f| f.get_name() == "Inner").unwrap();
    let outer = memory.iter().position(|f| f.get_name() == "Outer").unwrap();
    let main = memory.iter().position(|f| f.get_name() == "Main").unwrap();
    assert!(inner < outer && outer < main);
    assert_eq!(memory.len(), 3);
    assert_eq!(memory[inner].get_nesting_level(), 2);
    assert_eq!(memory[outer].get_nesting_level(), 1);
    assert_eq!(memory[main].get_nesting_level(), 1);
}

#[test]
fn test_space_before_parenthesis_is_no_call() {
    let program = "PROGRAM T; BEGIN Alpha (1) END.";
    let result = interpret_text(program, &HostReals);
    match result {
        Err(RuntimeError::UnexpectedToken(_, expected)) => {
            assert_eq!(expected, TokenType::Colon);
        },
        other => panic!("Unexpected result {:?}", other.map(|_| ())),
    }
}

#[test]
fn test_comment_skipped() {
    let program = "PROGRAM T; { a comment } VAR a : INTEGER; BEGIN a := 1 { mid } + 2 END.";
    let memory = interpret_text(program, &HostReals).unwrap();
    let frame = memory.iter().find(|f| f.get_name() == "T").unwrap();
    assert_eq!(frame.get_item("a"), Some(&Literal::Int(3)));
}

#[test]
fn test_unterminated_comment_consumes_input() {
    let program = "PROGRAM T; BEGIN END. { runs to the end";
    let result = interpret_text(program, &HostReals);
    assert!(result.is_ok());
}

#[test]
fn test_member_lookup_is_case_insensitive() {
    let program = "PROGRAM T; VAR CamelCase : INTEGER; BEGIN CamelCase := 9 END.";
    let memory = interpret_text(program, &HostReals).unwrap();
    let frame = memory.iter().find(|f| f.get_name() == "T").unwrap();
    assert_eq!(frame.get_item("CAMELCASE"), Some(&Literal::Int(9)));
    assert_eq!(frame.get_item("camelcase"), Some(&Literal::Int(9)));
}

#[test]
fn test_text_concatenation() {
    let a = Literal::Text("ab".to_string());
    let b = Literal::Text("cd".to_string());
    assert_eq!(a.add(&b, &HostReals), Some(Literal::Text("abcd".to_string())));
}

#[test]
fn test_integer_addition_wraps() {
    let a = Literal::Int(i64::MAX);
    let b = Literal::Int(1);
    assert_eq!(a.add(&b, &HostReals), Some(Literal::Int(i64::MIN)));
}

#[test]
fn test_mixed_arithmetic_promotes() {
    let a = Literal::Int(2);
    let b = Literal::Float((0.5f64).to_bits());
    assert_eq!(a.add(&b, &HostReals), Some(Literal::Float((2.5f64).to_bits())));
    assert_eq!(a.sub(&b, &HostReals), Some(Literal::Float((1.5f64).to_bits())));
    assert_eq!(a.mul(&b, &HostReals), Some(Literal::Float((1.0f64).to_bits())));
    assert_eq!(a.div(&b, &HostReals), Some(Literal::Float((4.0f64).to_bits())));
    assert_eq!(a.add(&Literal::Bool(true), &HostReals), None);
}

#[test]
fn test_remainder_is_integer_only() {
    let a = Literal::Int(7);
    assert_eq!(a.rem(&Literal::Int(3)), Some(Literal::Int(1)));
    assert_eq!(a.rem(&Literal::Int(0)), None);
    assert_eq!(a.rem(&Literal::Float((3.0f64).to_bits())), None);
}

#[test]
fn test_lexer_tokens() {
    let mut lexer = Lexer::from("begin X_1 42 3.14 + @");
    let t = lexer.get_next_token().unwrap();
    assert_eq!(t.token_type(), TokenType::Begin);
    assert_eq!(t.literal(), &Literal::Text("BEGIN".to_string()));
    let t = lexer.get_next_token().unwrap();
    assert_eq!(t.token_type(), TokenType::Identifier);
    assert_eq!(t.literal(), &Literal::Text("X_1".to_string()));
    let t = lexer.get_next_token().unwrap();
    assert_eq!(t.token_type(), TokenType::IntegerConst);
    assert_eq!(t.literal(), &Literal::Int(42));
    let t = lexer.get_next_token().unwrap();
    assert_eq!(t.token_type(), TokenType::FloatConst);
    assert_eq!(t.literal(), &Literal::Text("3.14".to_string()));
    let t = lexer.get_next_token().unwrap();
    assert_eq!(t.token_type(), TokenType::Plus);
    assert_eq!(lexer.get_current_char(), Some(' '));
    let t = lexer.get_next_token();
    assert_eq!(t.err(), Some(RuntimeError::UnexpectedChar('@')));
}

#[test]
fn test_lexer_end_of_input_repeats() {
    let mut lexer = Lexer::from("x");
    assert_eq!(lexer.get_next_token().unwrap().token_type(), TokenType::Identifier);
    assert_eq!(lexer.get_next_token().unwrap().token_type(), TokenType::EOF);
    assert_eq!(lexer.get_next_token().unwrap().token_type(), TokenType::EOF);
}

#[test]
fn test_stack_underflow_without_frame() {
    let var = Expr::Var(VarNode {
        name: Token::new(TokenType::Identifier, Literal::Text("x".to_string()), 1, 1),
    });
    let result = visit_expr(&var, None, &HostReals);
    assert_eq!(result.err(), Some(RuntimeError::StackUnderflow));
}

#[test]
fn test_unhandled_binary_op() {
    let op = Token::new(TokenType::Comma, Literal::Text(String::new()), 1, 1);
    let one = Expr::Num(NumNode {
        token: Token::new(TokenType::IntegerConst, Literal::Int(1), 1, 1),
    });
    let two = Expr::Num(NumNode {
        token: Token::new(TokenType::IntegerConst, Literal::Int(2), 1, 1),
    });
    let e = Expr::BinaryOp(Box::new(BinaryOpNode {
        left_side: one,
        op: op.clone(),
        right_side: two,
    }));
    let result = visit_expr(&e, None, &HostReals);
    assert_eq!(result.err(), Some(RuntimeError::UnhandledBinaryOp(op)));
}

#[test]
fn test_unhandled_unary_op() {
    let op = Token::new(TokenType::Multiply, Literal::Text(String::new()), 1, 1);
    let one = Expr::Num(NumNode {
        token: Token::new(TokenType::IntegerConst, Literal::Int(1), 1, 1),
    });
    let e = Expr::UnaryOp(Box::new(UnaryOpNode { op: op.clone(), node: one }));
    let result = visit_expr(&e, None, &HostReals);
    assert_eq!(result.err(), Some(RuntimeError::UnhandledUnaryOp(op)));
}

#[test]
fn test_unsupported_operand_types() {
    let op = Token::new(TokenType::Minus, Literal::Text(String::new()), 1, 1);
    let text = Expr::Num(NumNode {
        token: Token::new(TokenType::Identifier, Literal::Text("t".to_string()), 1, 1),
    });
    let one = Expr::Num(NumNode {
        token: Token::new(TokenType::IntegerConst, Literal::Int(1), 1, 1),
    });
    let e = Expr::BinaryOp(Box::new(BinaryOpNode {
        left_side: text,
        op: op.clone(),
        right_side: one,
    }));
    let result = visit_expr(&e, None, &HostReals);
    assert_eq!(result.err(), Some(RuntimeError::UnsupportedArgumentTypeByOp(op)));
}

#[test]
fn test_illformed_variable_expression() {
    let bad_target = VarNode {
        name: Token::new(TokenType::Identifier, Literal::Int(5), 1, 1),
    };
    let one = Expr::Num(NumNode {
        token: Token::new(TokenType::IntegerConst, Literal::Int(1), 1, 1),
    });
    let program = pascal_interpreter::ast::ProgramNode {
        name: Literal::Text("P".to_string()),
        block: BlockNode {
            declarations: Vec::new(),
            compound_statement: CompoundStatementNode {
                child_statements: vec![Statement::Assignment(AssignmentNode {
                    left: bad_target,
                    right: one,
                })],
            },
        },
    };
    let mut program = program;
    let mut analyzer = SemanticAnalyzer::new();
    let result = analyzer.analyze(&mut program);
    assert_eq!(result.err(), Some(RuntimeError::IllformedVarExpr));
}

#[test]
fn test_unary_sign_in_program() {
    let program = "PROGRAM T; VAR a : INTEGER; BEGIN a := -3 + + 5 END.";
    let memory = interpret_text(program, &HostReals).unwrap();
    let frame = memory.iter().find(|f| f.get_name() == "T").unwrap();
    assert_eq!(frame.get_item("a"), Some(&Literal::Int(2)));
}

#[test]
fn test_activation_record_members() {
    let mut ar = ActivationRecord::from(Literal::Text("demo".to_string()), ARType::Program, 1);
    assert_eq!(ar.get_name(), "demo");
    assert_eq!(ar.get_nesting_level(), 1);
    assert_eq!(ar.get_item("v"), None);
    ar.set_item("V", Literal::Int(4));
    assert_eq!(ar.get_item("v"), Some(&Literal::Int(4)));
    ar.set_item("v", Literal::Bool(true));
    assert_eq!(ar.get_item("V"), Some(&Literal::Bool(true)));
}
