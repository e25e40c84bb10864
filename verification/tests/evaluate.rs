use yarn::eval::{EngineState, Outcome, Variables};
use yarn::expression::read_expression;
use yarn::text::Text;
use yarn::host::Function;
use yarn::table::Table;
use yarn::{Answer, ArithOp, EvalError, Number, Nodes, Request, Value, VariableName};

fn number(x: f32) -> Number {
    Number::from_bits(x.to_bits())
}

fn float(n: Number) -> f32 {
    f32::from_bits(n.to_bits())
}

fn state() -> EngineState {
    let mut functions = Table::new();
    functions.insert("visited".to_string(), Function::visited());
    EngineState {
        variables: Variables(Table::new()),
        functions,
    }
}

fn outcome(state: &EngineState, text: &str, answers: &Vec<Answer>) -> Outcome {
    let expr = read_expression(&Text::new(text)).unwrap();
    state.evaluate(&expr, &Nodes::new(), answers)
}

#[test]
fn literal_asks_for_its_number() {
    let state = state();
    match outcome(&state, "12.5", &vec![]) {
        Outcome::Need(Request::Parse(text)) => assert_eq!(text, "12.5"),
        other => panic!("unexpected {:?}", other),
    }
    match outcome(&state, "12.5", &vec![Answer::Number(number(12.5))]) {
        Outcome::Value(Value::Number(n)) => assert_eq!(float(n), 12.5),
        other => panic!("unexpected {:?}", other),
    }
}

#[test]
fn requests_come_in_evaluation_order() {
    let state = state();
    let mut answers = vec![];
    match outcome(&state, "1 - 2", &answers) {
        Outcome::Need(Request::Parse(text)) => assert_eq!(text, "1"),
        other => panic!("unexpected {:?}", other),
    }
    answers.push(Answer::Number(number(1.0)));
    match outcome(&state, "1 - 2", &answers) {
        Outcome::Need(Request::Parse(text)) => assert_eq!(text, "2"),
        other => panic!("unexpected {:?}", other),
    }
    answers.push(Answer::Number(number(2.0)));
    match outcome(&state, "1 - 2", &answers) {
        Outcome::Need(Request::Arith(ArithOp::Subtract, a, b)) => {
            assert_eq!(float(a), 1.0);
            assert_eq!(float(b), 2.0);
        }
        other => panic!("unexpected {:?}", other),
    }
    answers.push(Answer::Number(number(-1.0)));
    match outcome(&state, "1 - 2", &answers) {
        Outcome::Value(Value::Number(n)) => assert_eq!(float(n), -1.0),
        other => panic!("unexpected {:?}", other),
    }
}

#[test]
fn negation_flips_the_sign_without_the_host() {
    let mut state = state();
    state
        .variables
        .set(VariableName("x".to_string()), Value::Number(number(2.5)));
    match outcome(&state, "-$x", &vec![]) {
        Outcome::Value(Value::Number(n)) => assert_eq!(float(n), -2.5),
        other => panic!("unexpected {:?}", other),
    }
    state
        .variables
        .set(VariableName("t".to_string()), Value::Boolean(true));
    match outcome(&state, "-$t", &vec![]) {
        Outcome::Value(Value::Number(n)) => assert_eq!(float(n), -1.0),
        other => panic!("unexpected {:?}", other),
    }
    match outcome(&state, "!$t", &vec![]) {
        Outcome::Value(Value::Boolean(b)) => assert!(!b),
        other => panic!("unexpected {:?}", other),
    }
}

#[test]
fn both_sides_of_and_are_evaluated() {
    let mut state = state();
    state
        .variables
        .set(VariableName("f".to_string()), Value::Boolean(false));
    assert!(matches!(
        outcome(&state, "$f and $missing", &vec![]),
        Outcome::Failed(EvalError::UnknownVariable)
    ));
    assert!(matches!(
        outcome(&state, "$f and $f", &vec![]),
        Outcome::Value(Value::Boolean(false))
    ));
}

#[test]
fn left_operand_fails_first() {
    let state = state();
    assert!(matches!(
        outcome(&state, "$missing + nothing()", &vec![]),
        Outcome::Failed(EvalError::UnknownVariable)
    ));
    assert!(matches!(
        outcome(&state, "nothing() + $missing", &vec![]),
        Outcome::Failed(EvalError::UnknownFunction)
    ));
}

#[test]
fn variable_is_read_as_it_was_set() {
    let mut state = state();
    state
        .variables
        .set(VariableName("s".to_string()), Value::String("text".to_string()));
    state
        .variables
        .set(VariableName("s".to_string()), Value::String("newer".to_string()));
    match outcome(&state, "$s", &vec![]) {
        Outcome::Value(Value::String(s)) => assert_eq!(s, "newer"),
        other => panic!("unexpected {:?}", other),
    }
    match outcome(&state, "($s)", &vec![]) {
        Outcome::Value(Value::String(s)) => assert_eq!(s, "newer"),
        other => panic!("unexpected {:?}", other),
    }
}

#[test]
fn arity_is_checked_after_the_arguments() {
    let mut state = state();
    state
        .variables
        .set(VariableName("s".to_string()), Value::String("A".to_string()));
    assert!(matches!(
        outcome(&state, "visited()", &vec![]),
        Outcome::Failed(EvalError::ArityMismatch)
    ));
    assert!(matches!(
        outcome(&state, "visited($s $s)", &vec![]),
        Outcome::Failed(EvalError::ArityMismatch)
    ));
    assert!(matches!(
        outcome(&state, "visited($s $nothing)", &vec![]),
        Outcome::Failed(EvalError::UnknownVariable)
    ));
    assert!(matches!(
        outcome(&state, "visited($s)", &vec![]),
        Outcome::Failed(EvalError::Rejected)
    ));
}
