use pascal_interpreter::error::RuntimeError;
use pascal_interpreter::helper::interpret_text;
use pascal_interpreter::literal::Literal as ValueLiteral;
use pascal_interpreter::literal::RealOps;

/// IEEE-754 double-precision arithmetic over bit patterns, as the library
/// expects its host to supply it.
struct HostReals;

impl RealOps for HostReals {
    fn real_from_literal(&self, s: &str) -> u64 {
        s.parse::<f64>().unwrap_or(0.0).to_bits()
    }

    fn real_from_int(&self, i: i64) -> u64 {
        (i as f64).to_bits()
    }

    fn real_add(&self, a: u64, b: u64) -> u64 {
        (f64::from_bits(a) + f64::from_bits(b)).to_bits()
    }

    fn real_sub(&self, a: u64, b: u64) -> u64 {
        (f64::from_bits(a) - f64::from_bits(b)).to_bits()
    }

    fn real_mul(&self, a: u64, b: u64) -> u64 {
        (f64::from_bits(a) * f64::from_bits(b)).to_bits()
    }

    fn real_div(&self, a: u64, b: u64) -> u64 {
        (f64::from_bits(a) / f64::from_bits(b)).to_bits()
    }
}

#[test]
fn test_basic() {
    let program = r#"
        PROGRAM Test;
        VAR
            a : INTEGER;
        BEGIN
           a := 10 * ((5 + 3) * 2) - 21;
        END.
    "#;

    let result = interpret_text(program, &HostReals);
    assert!(result.is_ok());

    let memory = result.unwrap();
    let program_memory = memory.iter().find(|&callstack| callstack.get_name() == "Test").unwrap();
    let value = program_memory.get_item("a");
    assert_eq!(value, Some(&ValueLiteral::Int(139)));
}

#[test]
fn test_invalid_syntax() {
    let program = r#"
        PROGRAM Test;
        VAR
            a : INTEGER;
        BEGIN
           a := 10 * ((5 + 3) * ) - 21;
        END.
    "#;

    let result = interpret_text(program, &HostReals);

    match result {
        Err(RuntimeError::UnexpectedToken(_, _)) => (),
        Err(e) => panic!("Unexpected error {:?}", e),
        Ok(_) => panic!("Expected failure"),
    }
}

#[test]
fn test_procedure_decl() {
    let program = r#"
        PROGRAM Part12;
            VAR
            number : INTEGER;
            a, b   : INTEGER;
            y      : REAL;

            PROCEDURE P1;
            VAR
            a : REAL;
            k : INTEGER;
            PROCEDURE P2;
            VAR
                a, z : INTEGER;
            BEGIN {P2}
                z := 777;
            END;  {P2}
            BEGIN {P1}

            END;  {P1}

            BEGIN {Part12}
            number := 2;
            a := number ;
            b := 10 * a + 10 * number DIV 4;
            y := 20 / 7 + 3.14
            END.  {Part12}
    "#;

    let result = interpret_text(program, &HostReals);
    assert!(result.is_ok());

    let memory = result.unwrap();
    let program_memory = memory.iter().find(|&callstack| callstack.get_name() == "Part12").unwrap();
    assert_eq!(program_memory.get_item("a"), Some(&ValueLiteral::Int(2)));
    assert_eq!(program_memory.get_item("b"), Some(&ValueLiteral::Float((25.0f64).to_bits())));
}

#[test]
fn test_procedure_call() {
    let program = r#"
        PROGRAM Main;

            PROCEDURE Alpha(a : INTEGER; b : INTEGER);
                VAR x : INTEGER;
            BEGIN
                x := (a + b ) * 2;
            END;

        BEGIN { Main }

            Alpha(3 + 5, 7);  { procedure call }

        END.  { Main }
    "#;

    let result = interpret_text(program, &HostReals);
    assert!(result.is_ok());

    let memory = result.unwrap();
    let proc_memory = memory.iter().find(|&callstack| callstack.get_name() == "Alpha").unwrap();
    assert_eq!(proc_memory.get_item("a"), Some(&ValueLiteral::Int(8)));
    assert_eq!(proc_memory.get_item("b"), Some(&ValueLiteral::Int(7)));
    assert_eq!(proc_memory.get_item("x"), Some(&ValueLiteral::Int(30)));
}

#[test]
fn test_missing_variable() {
    let program = r#"
        PROGRAM Main;

            PROCEDURE Alpha(a : INTEGER; b : INTEGER);
                VAR x : INTEGER;
            BEGIN
                x := (a + b ) * 2 + x;
            END;

        BEGIN { Main }

            Alpha(3 + 5, 7);  { procedure call }

        END.  { Main }
    "#;

    let result = interpret_text(program, &HostReals);
    match result {
        Err(RuntimeError::UndefinedVariable(name)) => assert_eq!(name, "x".to_string()),
        other => panic!("Unexpected result {:?}", other.map(|_| ())),
    }
}

#[test]
fn test_procedure_nested_call() {
    let program = r#"
        PROGRAM Main;

            PROCEDURE Alpha(a : INTEGER; b : INTEGER);
                VAR x : INTEGER;

                PROCEDURE Beta(a : integer; b : INTEGER);
                    VAR x : INTEGER;
                BEGIN
                    x := a * 10 + b * 2;
                END;

            BEGIN
                x := (a + b ) * 2;

                beta(5, 10);      { procedure call }
            END;

        begin { Main }

            Alpha(3 + 5, 7);  { procedure call }

        END.  { Main }
    "#;

    let result = interpret_text(program, &HostReals);
    assert!(result.is_ok());

    let memory = result.unwrap();
    let proc_memory = memory.iter().find(|&callstack| callstack.get_name() == "Alpha").unwrap();
    assert_eq!(proc_memory.get_item("a"), Some(&ValueLiteral::Int(8)));
    assert_eq!(proc_memory.get_item("b"), Some(&ValueLiteral::Int(7)));
    assert_eq!(proc_memory.get_item("x"), Some(&ValueLiteral::Int(30)));

    let proc_memory = memory.iter().find(|&callstack| callstack.get_name() == "beta").unwrap();
    assert_eq!(proc_memory.get_item("a"), Some(&ValueLiteral::Int(5)));
    assert_eq!(proc_memory.get_item("b"), Some(&ValueLiteral::Int(10)));
    assert_eq!(proc_memory.get_item("x"), Some(&ValueLiteral::Int(70)));
}
