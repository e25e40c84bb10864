use yarn::eval::{combine, Outcome};
use yarn::ast::BinaryOp;
use yarn::{Answer, ArithOp, Number, Request, Value};

fn number(x: f32) -> Number {
    Number::from_bits(x.to_bits())
}

fn float(n: Number) -> f32 {
    f32::from_bits(n.to_bits())
}

fn answer(request: Request) -> Answer {
    match request {
        Request::Parse(text) => Answer::Number(number(text.parse::<f32>().unwrap())),
        Request::Format(n) => Answer::Text(float(n).to_string()),
        Request::Arith(op, a, b) => {
            let (x, y) = (float(a), float(b));
            Answer::Number(number(match op {
                ArithOp::Add => x + y,
                ArithOp::Subtract => x - y,
                ArithOp::Multiply => x * y,
                ArithOp::Divide => x / y,
            }))
        }
        Request::Call(name, _) => panic!("no function {}", name),
    }
}

/// Applies a binary operator, doing the host's part with real floats.
fn apply(op: BinaryOp, l: &Value, r: &Value) -> Value {
    let mut answers = Vec::new();
    loop {
        match combine(op, l, r, &answers, 0).0 {
            Outcome::Value(v) => return v,
            Outcome::Need(request) => answers.push(answer(request)),
            Outcome::Failed(e) => panic!("{:?}", e),
        }
    }
}

fn text(s: &str) -> Value {
    Value::String(s.to_string())
}

fn num(x: f32) -> Value {
    Value::Number(number(x))
}

fn as_bool(v: Value) -> bool {
    match v {
        Value::Boolean(b) => b,
        other => panic!("not a boolean: {:?}", other),
    }
}

fn as_float(v: Value) -> f32 {
    match v {
        Value::Number(n) => float(n),
        other => panic!("not a number: {:?}", other),
    }
}

fn as_text(v: Value) -> String {
    match v {
        Value::String(s) => s,
        other => panic!("not a string: {:?}", other),
    }
}

const SAMPLES: [f32; 17] = [
    0.0,
    -0.0,
    1.0,
    -1.0,
    0.5,
    -0.5,
    2.0,
    3.0,
    1.0e-40,
    -1.0e-40,
    3.4e38,
    -3.4e38,
    f32::INFINITY,
    f32::NEG_INFINITY,
    f32::NAN,
    f32::MIN_POSITIVE,
    16777216.0,
];

#[test]
fn number_order_is_that_of_the_floats() {
    for &a in SAMPLES.iter() {
        for &b in SAMPLES.iter() {
            let (x, y) = (number(a), number(b));
            assert_eq!(x.equals(y), a == b, "{} == {}", a, b);
            assert_eq!(x.less_than(y), a < b, "{} < {}", a, b);
            assert_eq!(x.less_or_equal(y), a <= b, "{} <= {}", a, b);
        }
    }
}

#[test]
fn number_predicates_are_those_of_the_floats() {
    for &a in SAMPLES.iter() {
        let x = number(a);
        assert_eq!(x.is_nan(), a.is_nan(), "{}", a);
        assert_eq!(x.is_zero(), a == 0.0, "{}", a);
        assert_eq!(x.negate().to_bits(), (-a).to_bits(), "{}", a);
    }
    assert_eq!(Number::from_bool(true).to_bits(), 1.0f32.to_bits());
    assert_eq!(Number::from_bool(false).to_bits(), 0.0f32.to_bits());
}

#[test]
fn string_representation() {
    assert_eq!(Value::Boolean(true).as_string(""), "true");
    assert_eq!(Value::Boolean(false).as_string(""), "false");
    assert_eq!(text("hello").as_string("ignored"), "hello");
    assert_eq!(num(2.5).as_string("2.5"), "2.5");
}

#[test]
fn truthiness() {
    assert!(Value::Boolean(true).as_bool());
    assert!(!Value::Boolean(false).as_bool());
    assert!(text("x").as_bool());
    assert!(text("false").as_bool());
    assert!(!text("").as_bool());
    assert!(num(0.1).as_bool());
    assert!(num(f32::NAN).as_bool());
    assert!(!num(0.0).as_bool());
    assert!(!num(-0.0).as_bool());
}

#[test]
fn numeric_representation() {
    assert_eq!(float(Value::Boolean(true).as_num()), 1.0);
    assert_eq!(float(Value::Boolean(false).as_num()), 0.0);
    assert_eq!(float(text("12").as_num()), 0.0);
    assert_eq!(float(text("").as_num()), 0.0);
    assert_eq!(float(num(-7.25).as_num()), -7.25);
}

#[test]
fn string_equals_the_text_of_a_number() {
    assert!(as_bool(apply(BinaryOp::Equals, &text("3"), &num(3.0))));
    assert!(as_bool(apply(BinaryOp::Equals, &num(3.0), &text("3"))));
    assert!(!as_bool(apply(BinaryOp::Equals, &text("3.0"), &num(3.0))));
    assert!(as_bool(apply(BinaryOp::NotEquals, &text("3.0"), &num(3.0))));
    assert!(text("3").equals(&num(3.0), "3"));
}

#[test]
fn true_plus_one_is_two() {
    let sum = apply(BinaryOp::Plus, &Value::Boolean(true), &num(1.0));
    assert_eq!(as_float(sum.clone()), 2.0);
    assert!(as_bool(apply(BinaryOp::Equals, &sum, &num(2.0))));
}

#[test]
fn equality_across_kinds() {
    assert!(as_bool(apply(BinaryOp::Equals, &text("a"), &text("a"))));
    assert!(!as_bool(apply(BinaryOp::Equals, &text("a"), &text("b"))));
    assert!(as_bool(apply(BinaryOp::Equals, &text("true"), &Value::Boolean(true))));
    assert!(as_bool(apply(BinaryOp::Equals, &Value::Boolean(false), &text("false"))));
    assert!(as_bool(apply(BinaryOp::Equals, &num(1.0), &Value::Boolean(true))));
    assert!(as_bool(apply(BinaryOp::Equals, &Value::Boolean(false), &num(0.0))));
    assert!(!as_bool(apply(BinaryOp::Equals, &num(2.0), &Value::Boolean(true))));
    assert!(as_bool(apply(BinaryOp::Equals, &Value::Boolean(true), &Value::Boolean(true))));
    assert!(!as_bool(apply(BinaryOp::Equals, &Value::Boolean(true), &Value::Boolean(false))));
    assert!(!as_bool(apply(BinaryOp::Equals, &num(f32::NAN), &num(f32::NAN))));
    assert!(as_bool(apply(BinaryOp::Equals, &num(0.0), &num(-0.0))));
}

#[test]
fn equality_is_not_transitive_across_kinds() {
    // "1" == 1 and 1 == true, but "1" != true.
    assert!(as_bool(apply(BinaryOp::Equals, &text("1"), &num(1.0))));
    assert!(as_bool(apply(BinaryOp::Equals, &num(1.0), &Value::Boolean(true))));
    assert!(!as_bool(apply(BinaryOp::Equals, &text("1"), &Value::Boolean(true))));
}

#[test]
fn plus_joins_text_when_either_side_is_a_string() {
    assert_eq!(as_text(apply(BinaryOp::Plus, &text("a"), &text("b"))), "ab");
    assert_eq!(as_text(apply(BinaryOp::Plus, &text("n="), &num(2.5))), "n=2.5");
    assert_eq!(as_text(apply(BinaryOp::Plus, &num(2.0), &text("nd"))), "2nd");
    assert_eq!(as_text(apply(BinaryOp::Plus, &text("is "), &Value::Boolean(true))), "is true");
    assert_eq!(as_text(apply(BinaryOp::Plus, &Value::Boolean(false), &text("!"))), "false!");
}

#[test]
fn plus_adds_numbers_otherwise() {
    assert_eq!(as_float(apply(BinaryOp::Plus, &num(1.5), &num(2.0))), 3.5);
    assert_eq!(as_float(apply(BinaryOp::Plus, &num(1.5), &Value::Boolean(true))), 2.5);
    assert_eq!(
        as_float(apply(BinaryOp::Plus, &Value::Boolean(true), &Value::Boolean(true))),
        2.0
    );
}

#[test]
fn other_arithmetic_always_works_on_numbers() {
    assert_eq!(as_float(apply(BinaryOp::Minus, &num(5.0), &num(1.5))), 3.5);
    assert_eq!(as_float(apply(BinaryOp::Multiply, &num(4.0), &num(2.5))), 10.0);
    assert_eq!(as_float(apply(BinaryOp::Divide, &num(9.0), &num(2.0))), 4.5);
    assert_eq!(as_float(apply(BinaryOp::Minus, &text("9"), &num(2.0))), -2.0);
    assert_eq!(as_float(apply(BinaryOp::Multiply, &text("9"), &text("9"))), 0.0);
    assert_eq!(as_float(apply(BinaryOp::Divide, &num(1.0), &text("x"))), f32::INFINITY);
    assert_eq!(as_float(apply(BinaryOp::Multiply, &Value::Boolean(true), &num(3.0))), 3.0);
}

#[test]
fn logic_looks_at_truthiness() {
    assert!(as_bool(apply(BinaryOp::And, &text("x"), &num(1.0))));
    assert!(!as_bool(apply(BinaryOp::And, &text(""), &num(1.0))));
    assert!(as_bool(apply(BinaryOp::Or, &text(""), &num(1.0))));
    assert!(!as_bool(apply(BinaryOp::Or, &Value::Boolean(false), &num(0.0))));
}

#[test]
fn order_compares_numeric_representations() {
    assert!(as_bool(apply(BinaryOp::GreaterThan, &num(2.0), &num(1.0))));
    assert!(!as_bool(apply(BinaryOp::GreaterThan, &num(1.0), &num(1.0))));
    assert!(as_bool(apply(BinaryOp::GreaterThanEqual, &num(1.0), &num(1.0))));
    assert!(as_bool(apply(BinaryOp::LessThan, &num(-1.0), &Value::Boolean(false))));
    assert!(as_bool(apply(BinaryOp::LessThanEqual, &text("zzz"), &num(0.0))));
    assert!(!as_bool(apply(BinaryOp::LessThan, &num(f32::NAN), &num(1.0))));
    assert!(!as_bool(apply(BinaryOp::GreaterThanEqual, &num(f32::NAN), &num(f32::NAN))));
}

#[test]
fn text_is_asked_only_where_a_number_stands_beside_a_string() {
    let none = Vec::new();
    assert!(matches!(
        combine(BinaryOp::Equals, &text("3"), &num(3.0), &none, 0).0,
        Outcome::Need(Request::Format(_))
    ));
    assert!(matches!(
        combine(BinaryOp::Equals, &num(3.0), &num(3.0), &none, 0).0,
        Outcome::Value(Value::Boolean(true))
    ));
    assert!(matches!(
        combine(BinaryOp::Plus, &num(3.0), &num(3.0), &none, 0).0,
        Outcome::Need(Request::Arith(ArithOp::Add, _, _))
    ));
    assert!(matches!(
        combine(BinaryOp::Plus, &text("a"), &Value::Boolean(true), &none, 0).0,
        Outcome::Value(Value::String(_))
    ));
}
