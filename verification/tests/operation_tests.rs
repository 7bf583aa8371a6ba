use tpi_calculadora_distribuida::errors::CalculatorErrors;
use std::str::FromStr;
use tpi_calculadora_distribuida::operation::Operation;

#[test]
fn test_parse_add() {
    let op = Operation::get_op("+", "10").unwrap();
    assert_eq!(op, Operation::Add(10));
}

#[test]
fn test_parse_sub() {
    let op = Operation::get_op("-", "10").unwrap();
    assert_eq!(op, Operation::Sub(10));
}

#[test]
fn test_parse_mul() {
    let op = Operation::get_op("*", "10").unwrap();
    assert_eq!(op, Operation::Mul(10));
}

#[test]
fn test_parse_div() {
    let op = Operation::get_op("/", "10").unwrap();
    assert_eq!(op, Operation::Div(10));
}

#[test]
fn test_parse_op_add() {
    let op = Operation::from_str("OP + 10").unwrap();
    assert_eq!(op, Operation::Add(10));
}

#[test]
fn test_parse_op_sub() {
    let op = Operation::from_str("OP - 10").unwrap();
    assert_eq!(op, Operation::Sub(10));
}

#[test]
fn test_parse_op_mul() {
    let op = Operation::from_str("OP * 10").unwrap();
    assert_eq!(op, Operation::Mul(10));
}

#[test]
fn test_parse_op_div() {
    let op = Operation::from_str("OP / 10").unwrap();
    assert_eq!(op, Operation::Div(10));
}

#[test]
fn test_parse_op_error_lenght() {
    match Operation::from_str("OP / + 10") {
        Ok(_) => panic!("Should throw an error"),
        Err(e) => match e {
            CalculatorErrors::ParseFailure => (),
            _ => panic!("Should throw ParseFailure error"),
        },
    };
}

#[test]
fn test_parse_get() {
    let op = Operation::from_str("GET").unwrap();
    assert_eq!(op, Operation::Get)
}

#[test]
fn test_parse_get_error_lenght() {
    match Operation::from_str("GET 10") {
        Ok(_) => panic!("Should throw an error"),
        Err(e) => match e {
            CalculatorErrors::ParseFailure => (),
            _ => panic!("Should throw ParseFailure error"),
        },
    };
}

#[test]
fn test_parse_add_border_case_0() {
    let op = Operation::get_op("+", "0").unwrap();
    assert_eq!(op, Operation::Add(0));
}

#[test]
fn test_parse_add_border_case_255() {
    let op = Operation::get_op("+", "255").unwrap();
    assert_eq!(op, Operation::Add(255));
}

#[test]
fn test_parse_invalid_operation() {
    match Operation::get_op("%", "10") {
        Ok(_) => panic!("Should throw an error"),
        Err(e) => match e {
            CalculatorErrors::InvalidOperation(symbol) => assert_eq!(symbol, "%"),
            _ => panic!("Should throw InvalidOperation error"),
        },
    }
}

#[test]
fn test_parse_invalid_line() {
    match Operation::get_op("+", "- 10") {
        Ok(_) => panic!("Should throw an error"),
        Err(e) => match e {
            CalculatorErrors::ParseFailure => (),
            _ => panic!("Should throw ParseFailure error"),
        },
    }
}

#[test]
fn test_parse_invalid_negative_operand_1() {
    match Operation::get_op("+", "-1") {
        Ok(_) => panic!("Should throw an error"),
        Err(e) => match e {
            CalculatorErrors::ParseFailure => (),
            _ => panic!("Should throw ParseFailure error"),
        },
    }
}

#[test]
fn test_parse_invalid_operand_256() {
    match Operation::get_op("+", "256") {
        Ok(_) => panic!("Should throw an error"),
        Err(e) => match e {
            CalculatorErrors::ParseFailure => (),
            _ => panic!("Should throw ParseFailure error"),
        },
    }
}
