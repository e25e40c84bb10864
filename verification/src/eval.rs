//! Evaluation of expressions.
//!
//! The evaluator cannot do everything itself: the value of a decimal
//! literal, the decimal text of a number, sums, differences, products and
//! quotients, and calls of host functions are the host's work. Evaluation is
//! therefore a function of the expression, the environment and the answers
//! the host has given so far, in the order in which they were asked for. It
//! ends in a value, in an error, or in the next request; after the host has
//! answered that request, evaluating again with the longer list of answers
//! gets further.

use vstd::prelude::*;
use crate::ast::{BinaryOp, Expr, ExprModel, Term, TermModel, UnaryOp, VariableName, expr_models};
use crate::host::{Function, FunctionBody, Signature};
use crate::node::Nodes;
use crate::number::Number;
use crate::table::Table;
use crate::value::{Value, ValueModel};

verus! {

/// The four operations on numbers that the host performs.
#[derive(Clone, Copy, Debug, PartialEq, Eq, Structural)]
pub enum ArithOp {
    Add,
    Subtract,
    Multiply,
    Divide,
}

/// Work that evaluation asks of the host.
#[derive(Debug)]
pub enum Request {
    /// The number that a decimal literal denotes.
    Parse(String),
    /// The decimal text of a number.
    Format(Number),
    /// The result of an operation on two numbers, left operand first.
    Arith(ArithOp, Number, Number),
    /// The result of a host function on evaluated arguments.
    Call(String, Vec<Value>),
}

pub ghost enum RequestModel {
    Parse(Seq<char>),
    Format(Number),
    Arith(ArithOp, Number, Number),
    Call(Seq<char>, Seq<ValueModel>),
}

/// The host's answer to a request.
#[derive(Debug)]
pub enum Answer {
    /// Answers `Parse` and `Arith`.
    Number(Number),
    /// Answers `Format`.
    Text(String),
    /// Answers `Call`.
    Returned(Result<Value, ()>),
}

pub ghost enum AnswerModel {
    Number(Number),
    Text(Seq<char>),
    Returned(Option<ValueModel>),
}

/// Why an expression has no value.
#[derive(Clone, Copy, Debug, PartialEq, Eq, Structural)]
pub enum EvalError {
    /// A variable was read that was never assigned.
    UnknownVariable,
    /// A function was called that is not registered.
    UnknownFunction,
    /// A function was called with another number of arguments than it
    /// declares.
    ArityMismatch,
    /// The called function itself reported an error.
    Rejected,
    /// An answer is of another kind than the request it stands for.
    Protocol,
}

/// How an evaluation ended.
#[derive(Debug)]
pub enum Outcome {
    Value(Value),
    Failed(EvalError),
    Need(Request),
}

pub ghost enum OutcomeModel {
    Value(ValueModel),
    Failed(EvalError),
    Need(RequestModel),
}

/// The models of a list of values.
pub open spec fn value_models(values: Seq<Value>) -> Seq<ValueModel> {
    Seq::new(values.len(), |i: int| values[i]@)
}

/// The models of a list of answers.
pub open spec fn answer_models(answers: Seq<Answer>) -> Seq<AnswerModel> {
    Seq::new(answers.len(), |i: int| answers[i]@)
}

impl View for Request {
    type V = RequestModel;

    open spec fn view(&self) -> RequestModel {
        match self {
            Request::Parse(s) => RequestModel::Parse(s@),
            Request::Format(n) => RequestModel::Format(*n),
            Request::Arith(op, a, b) => RequestModel::Arith(*op, *a, *b),
            Request::Call(name, args) => RequestModel::Call(name@, value_models(args@)),
        }
    }
}

impl View for Answer {
    type V = AnswerModel;

    open spec fn view(&self) -> AnswerModel {
        match self {
            Answer::Number(n) => AnswerModel::Number(*n),
            Answer::Text(s) => AnswerModel::Text(s@),
            Answer::Returned(Ok(v)) => AnswerModel::Returned(Some(v@)),
            Answer::Returned(Err(_)) => AnswerModel::Returned(None),
        }
    }
}

impl View for Outcome {
    type V = OutcomeModel;

    open spec fn view(&self) -> OutcomeModel {
        match self {
            Outcome::Value(v) => OutcomeModel::Value(v@),
            Outcome::Failed(e) => OutcomeModel::Failed(*e),
            Outcome::Need(r) => OutcomeModel::Need(r@),
        }
    }
}

/// What an expression is evaluated in: the variables, the registered
/// functions, and for each node whether it was visited.
pub ghost struct Env {
    pub variables: Map<Seq<char>, ValueModel>,
    pub functions: Map<Seq<char>, Signature>,
    pub visited: Map<Seq<char>, bool>,
}

/// The answer at position `at` taken as a number, or the request when the
/// answers end before it.
pub open spec fn number_from(request: RequestModel, answers: Seq<AnswerModel>, at: nat) -> (
    OutcomeModel,
    nat,
) {
    if at < answers.len() {
        match answers[at as int] {
            AnswerModel::Number(n) => (OutcomeModel::Value(ValueModel::Number(n)), at + 1),
            _ => (OutcomeModel::Failed(EvalError::Protocol), at),
        }
    } else {
        (OutcomeModel::Need(request), at)
    }
}

/// The number whose text a textual operation on `l` and `r` needs.
pub open spec fn wanted_text(l: ValueModel, r: ValueModel) -> Option<Number> {
    match l.text_wanted(r) {
        Some(n) => Some(n),
        None => r.text_wanted(l),
    }
}

/// The result of `+` on text, `==` or `!=`, given the decimal text that it
/// may need.
pub open spec fn textual_result(op: BinaryOp, l: ValueModel, r: ValueModel, decimal: Seq<char>)
    -> ValueModel {
    match op {
        BinaryOp::Plus => ValueModel::String(l.joined(r, decimal)),
        BinaryOp::Equals => ValueModel::Boolean(l.equals(r, decimal)),
        _ => ValueModel::Boolean(!l.equals(r, decimal)),
    }
}

/// `+` on text, `==` or `!=`: asks for the text of the number that stands
/// beside a string, if there is one.
pub open spec fn textual(
    op: BinaryOp,
    l: ValueModel,
    r: ValueModel,
    answers: Seq<AnswerModel>,
    at: nat,
) -> (OutcomeModel, nat) {
    match wanted_text(l, r) {
        None => (OutcomeModel::Value(textual_result(op, l, r, Seq::empty())), at),
        Some(n) => if at < answers.len() {
            match answers[at as int] {
                AnswerModel::Text(d) => (OutcomeModel::Value(textual_result(op, l, r, d)), at + 1),
                _ => (OutcomeModel::Failed(EvalError::Protocol), at),
            }
        } else {
            (OutcomeModel::Need(RequestModel::Format(n)), at)
        },
    }
}

/// An operation on the numeric representations of both sides.
pub open spec fn numeric(
    op: ArithOp,
    l: ValueModel,
    r: ValueModel,
    answers: Seq<AnswerModel>,
    at: nat,
) -> (OutcomeModel, nat) {
    number_from(RequestModel::Arith(op, l.number(), r.number()), answers, at)
}

/// A binary operator applied to two values.
///
/// `and` and `or` look at truthiness. `+` joins text when either side is a
/// string and adds numbers otherwise; `-`, `*` and `/` always work on
/// numbers. `==` and `!=` compare across kinds. The four order comparisons
/// compare the numeric representations.
pub open spec fn binary(
    op: BinaryOp,
    l: ValueModel,
    r: ValueModel,
    answers: Seq<AnswerModel>,
    at: nat,
) -> (OutcomeModel, nat) {
    match op {
        BinaryOp::And => (OutcomeModel::Value(ValueModel::Boolean(l.truthy() && r.truthy())), at),
        BinaryOp::Or => (OutcomeModel::Value(ValueModel::Boolean(l.truthy() || r.truthy())), at),
        BinaryOp::Plus => if l.joins(r) {
            textual(op, l, r, answers, at)
        } else {
            numeric(ArithOp::Add, l, r, answers, at)
        },
        BinaryOp::Minus => numeric(ArithOp::Subtract, l, r, answers, at),
        BinaryOp::Multiply => numeric(ArithOp::Multiply, l, r, answers, at),
        BinaryOp::Divide => numeric(ArithOp::Divide, l, r, answers, at),
        BinaryOp::Equals => textual(op, l, r, answers, at),
        BinaryOp::NotEquals => textual(op, l, r, answers, at),
        BinaryOp::GreaterThan => (
            OutcomeModel::Value(ValueModel::Boolean(r.number().below(l.number()))),
            at,
        ),
        BinaryOp::LessThan => (
            OutcomeModel::Value(ValueModel::Boolean(l.number().below(r.number()))),
            at,
        ),
        BinaryOp::GreaterThanEqual => (
            OutcomeModel::Value(ValueModel::Boolean(r.number().at_most(l.number()))),
            at,
        ),
        BinaryOp::LessThanEqual => (
            OutcomeModel::Value(ValueModel::Boolean(l.number().at_most(r.number()))),
            at,
        ),
    }
}

/// A unary operator applied to a value.
pub open spec fn unary(op: UnaryOp, v: ValueModel) -> ValueModel {
    match op {
        UnaryOp::Not => ValueModel::Boolean(!v.truthy()),
        UnaryOp::Negate => ValueModel::Number(v.number().opposite()),
    }
}

/// The built-in `visited`: whether the node named by its string argument
/// was visited. It is an error for an argument that is no string or names
/// no node.
pub open spec fn visited(values: Seq<ValueModel>, env: Env) -> OutcomeModel {
    if values.len() == 0 {
        OutcomeModel::Failed(EvalError::Rejected)
    } else {
        match values[0] {
            ValueModel::String(s) => if env.visited.contains_key(s) {
                OutcomeModel::Value(ValueModel::Boolean(env.visited[s]))
            } else {
                OutcomeModel::Failed(EvalError::Rejected)
            },
            _ => OutcomeModel::Failed(EvalError::Rejected),
        }
    }
}

/// A call of `name` on evaluated arguments.
pub open spec fn call(
    name: Seq<char>,
    values: Seq<ValueModel>,
    env: Env,
    answers: Seq<AnswerModel>,
    at: nat,
) -> (OutcomeModel, nat) {
    if !env.functions.contains_key(name) {
        (OutcomeModel::Failed(EvalError::UnknownFunction), at)
    } else if env.functions[name].arity != values.len() {
        (OutcomeModel::Failed(EvalError::ArityMismatch), at)
    } else if env.functions[name].builtin {
        (visited(values, env), at)
    } else if at < answers.len() {
        match answers[at as int] {
            AnswerModel::Returned(Some(v)) => (OutcomeModel::Value(v), at + 1),
            AnswerModel::Returned(None) => (OutcomeModel::Failed(EvalError::Rejected), at),
            _ => (OutcomeModel::Failed(EvalError::Protocol), at),
        }
    } else {
        (OutcomeModel::Need(RequestModel::Call(name, values)), at)
    }
}

/// The outcome of evaluating `e` when the answers from position `at` on
/// are still unused, with the position of the first answer left unused.
///
/// Operands are evaluated left before right and arguments first to last,
/// all of them before the operator or function is looked at; the first
/// operand that does not end in a value ends the evaluation.
pub open spec fn eval(e: ExprModel, env: Env, answers: Seq<AnswerModel>, at: nat) -> (
    OutcomeModel,
    nat,
)
    decreases e, 0nat,
{
    match e {
        ExprModel::Parentheses(inner) => eval(*inner, env, answers, at),
        ExprModel::Term(TermModel::Number(literal)) => number_from(
            RequestModel::Parse(literal),
            answers,
            at,
        ),
        ExprModel::Term(TermModel::Boolean(b)) => (
            OutcomeModel::Value(ValueModel::Boolean(b)),
            at,
        ),
        ExprModel::Term(TermModel::String(s)) => (OutcomeModel::Value(ValueModel::String(s)), at),
        ExprModel::Term(TermModel::Variable(name)) => if env.variables.contains_key(name) {
            (OutcomeModel::Value(env.variables[name]), at)
        } else {
            (OutcomeModel::Failed(EvalError::UnknownVariable), at)
        },
        ExprModel::Term(TermModel::Function(name, args)) => {
            let (values, outcome, at1) = eval_all(args, env, answers, at);
            match outcome {
                Some(o) => (o, at1),
                None => call(name, values, env, answers, at1),
            }
        },
        ExprModel::Unary(op, inner) => {
            let (o, at1) = eval(*inner, env, answers, at);
            match o {
                OutcomeModel::Value(v) => (OutcomeModel::Value(unary(op, v)), at1),
                _ => (o, at1),
            }
        },
        ExprModel::Binary(op, left, right) => {
            let (lo, at1) = eval(*left, env, answers, at);
            match lo {
                OutcomeModel::Value(l) => {
                    let (ro, at2) = eval(*right, env, answers, at1);
                    match ro {
                        OutcomeModel::Value(r) => binary(op, l, r, answers, at2),
                        _ => (ro, at2),
                    }
                },
                _ => (lo, at1),
            }
        },
    }
}

/// The values of `args`, first to last, with `None`; or the outcome of the
/// first of them that has no value.
pub open spec fn eval_all(args: Seq<ExprModel>, env: Env, answers: Seq<AnswerModel>, at: nat)
    -> (Seq<ValueModel>, Option<OutcomeModel>, nat)
    decreases args, 1nat,
{
    if args.len() == 0 {
        (Seq::empty(), None, at)
    } else {
        let (values, outcome, at1) = eval_all(args.drop_last(), env, answers, at);
        match outcome {
            Some(o) => (values, Some(o), at1),
            None => {
                let (o, at2) = eval(args.last(), env, answers, at1);
                match o {
                    OutcomeModel::Value(v) => (values.push(v), None, at2),
                    _ => (values, Some(o), at2),
                }
            },
        }
    }
}

/// The variables of a script, by name.
pub struct Variables(pub Table<Value>);

impl Variables {
    pub open spec fn wf(&self) -> bool {
        self.0.wf()
    }

    /// The values of the variables that were assigned.
    pub open spec fn model(&self) -> Map<Seq<char>, ValueModel> {
        Map::new(|k: Seq<char>| self.0.has(k), |k: Seq<char>| self.0.at(k)@)
    }

    pub fn new() -> (v: Variables)
        ensures
            v.wf(),
            v.model() == Map::<Seq<char>, ValueModel>::empty(),
    {
        let t: Table<Value> = Table::new();
        let v = Variables(t);
        assert(v.model() =~= Map::<Seq<char>, ValueModel>::empty()) by {
            assert forall|k: Seq<char>| !v.0.has(k) by {
                assert(!v.0.map().contains_key(k));
            }
        }
        v
    }

    /// Assigns `value` to `name`.
    pub fn set(&mut self, name: VariableName, value: Value)
        requires
            old(self).wf(),
        ensures
            final(self).wf(),
            final(self).model() == old(self).model().insert(name@, value@),
    {
        self.0.insert(name.0, value);
        proof {
            assert(self.model() =~= old(self).model().insert(name@, value@));
        }
    }
}

/// The signatures of the registered functions, by name.
pub open spec fn signatures(functions: Table<Function>) -> Map<Seq<char>, Signature> {
    Map::new(|k: Seq<char>| functions.has(k), |k: Seq<char>| functions.at(k)@)
}

/// The answer at `at` taken as a number, or `request` handed back when
/// the answers end before it.
pub fn number_answer(request: Request, answers: &Vec<Answer>, at: usize) -> (r: (Outcome, usize))
    requires
        at <= answers.len(),
    ensures
        r.0@ == number_from(request@, answer_models(answers@), at as nat).0,
        r.1 == number_from(request@, answer_models(answers@), at as nat).1,
        at <= r.1 <= answers.len(),
{
    if at < answers.len() {
        assert(answer_models(answers@)[at as int] == answers@[at as int]@);
        match &answers[at] {
            Answer::Number(n) => (Outcome::Value(Value::Number(*n)), at + 1),
            _ => (Outcome::Failed(EvalError::Protocol), at),
        }
    } else {
        (Outcome::Need(request), at)
    }
}

/// `+` on text, `==` or `!=` applied to two values.
fn combine_textual(op: BinaryOp, l: &Value, r: &Value, answers: &Vec<Answer>, at: usize) -> (out: (
    Outcome,
    usize,
))
    requires
        at <= answers.len(),
        op == BinaryOp::Plus || op == BinaryOp::Equals || op == BinaryOp::NotEquals,
    ensures
        out.0@ == textual(op, l@, r@, answer_models(answers@), at as nat).0,
        out.1 == textual(op, l@, r@, answer_models(answers@), at as nat).1,
        at <= out.1 <= answers.len(),
{
    let wanted = l.decimal_wanted(r);
    let mut next: usize = at;
    let mut decimal = String::new();
    match wanted {
        Some(n) => {
            if at < answers.len() {
                assert(answer_models(answers@)[at as int] == answers@[at as int]@);
                match &answers[at] {
                    Answer::Text(d) => {
                        decimal = d.clone();
                        next = at + 1;
                    },
                    _ => {
                        return (Outcome::Failed(EvalError::Protocol), at);
                    },
                }
            } else {
                return (Outcome::Need(Request::Format(n)), at);
            }
        },
        None => {},
    }
    let value = match op {
        BinaryOp::Plus => l.join(r, decimal.as_str()),
        BinaryOp::Equals => Value::Boolean(l.equals(r, decimal.as_str())),
        _ => Value::Boolean(!l.equals(r, decimal.as_str())),
    };
    (Outcome::Value(value), next)
}

/// A binary operator applied to two values.
pub fn combine(op: BinaryOp, l: &Value, r: &Value, answers: &Vec<Answer>, at: usize) -> (out: (
    Outcome,
    usize,
))
    requires
        at <= answers.len(),
    ensures
        out.0@ == binary(op, l@, r@, answer_models(answers@), at as nat).0,
        out.1 == binary(op, l@, r@, answer_models(answers@), at as nat).1,
        at <= out.1 <= answers.len(),
{
    match op {
        BinaryOp::And => (Outcome::Value(Value::Boolean(l.as_bool() && r.as_bool())), at),
        BinaryOp::Or => (Outcome::Value(Value::Boolean(l.as_bool() || r.as_bool())), at),
        BinaryOp::Plus => {
            let joins = match (l, r) {
                (Value::String(_), _) => true,
                (_, Value::String(_)) => true,
                _ => false,
            };
            if joins {
                combine_textual(op, l, r, answers, at)
            } else {
                number_answer(Request::Arith(ArithOp::Add, l.as_num(), r.as_num()), answers, at)
            }
        },
        BinaryOp::Minus => number_answer(
            Request::Arith(ArithOp::Subtract, l.as_num(), r.as_num()),
            answers,
            at,
        ),
        BinaryOp::Multiply => number_answer(
            Request::Arith(ArithOp::Multiply, l.as_num(), r.as_num()),
            answers,
            at,
        ),
        BinaryOp::Divide => number_answer(
            Request::Arith(ArithOp::Divide, l.as_num(), r.as_num()),
            answers,
            at,
        ),
        BinaryOp::Equals => combine_textual(op, l, r, answers, at),
        BinaryOp::NotEquals => combine_textual(op, l, r, answers, at),
        BinaryOp::GreaterThan => (
            Outcome::Value(Value::Boolean(r.as_num().less_than(l.as_num()))),
            at,
        ),
        BinaryOp::LessThan => (Outcome::Value(Value::Boolean(l.as_num().less_than(r.as_num()))), at),
        BinaryOp::GreaterThanEqual => (
            Outcome::Value(Value::Boolean(r.as_num().less_or_equal(l.as_num()))),
            at,
        ),
        BinaryOp::LessThanEqual => (
            Outcome::Value(Value::Boolean(l.as_num().less_or_equal(r.as_num()))),
            at,
        ),
    }
}

/// A unary operator applied to a value.
pub fn apply_unary(op: UnaryOp, v: &Value) -> (r: Value)
    ensures
        r@ == unary(op, v@),
{
    match op {
        UnaryOp::Not => Value::Boolean(!v.as_bool()),
        UnaryOp::Negate => Value::Number(v.as_num().negate()),
    }
}

/// The built-in `visited` on evaluated arguments.
pub fn visited_builtin(values: &Vec<Value>, nodes: &Nodes) -> (r: Outcome)
    requires
        nodes.wf(),
    ensures
        r@ == visited(
            value_models(values@),
            Env { variables: Map::empty(), functions: Map::empty(), visited: nodes.visited() },
        ),
{
    if values.len() == 0 {
        return Outcome::Failed(EvalError::Rejected);
    }
    assert(value_models(values@)[0] == values@[0]@);
    match &values[0] {
        Value::String(s) => {
            match nodes.0.get(s) {
                Some(node) => Outcome::Value(Value::Boolean(node.visited)),
                None => Outcome::Failed(EvalError::Rejected),
            }
        },
        _ => Outcome::Failed(EvalError::Rejected),
    }
}

/// The state against which expressions are evaluated.
pub struct EngineState {
    pub variables: Variables,
    pub functions: Table<Function>,
}

impl EngineState {
    pub open spec fn wf(&self) -> bool {
        &&& self.variables.wf()
        &&& self.functions.wf()
    }

    /// The environment that this state and `nodes` make up.
    pub open spec fn env(&self, nodes: &Nodes) -> Env {
        Env {
            variables: self.variables.model(),
            functions: signatures(self.functions),
            visited: nodes.visited(),
        }
    }

    /// A call of `name` on evaluated arguments.
    fn call_at(
        &self,
        name: &String,
        values: Vec<Value>,
        nodes: &Nodes,
        answers: &Vec<Answer>,
        at: usize,
    ) -> (out: (Outcome, usize))
        requires
            self.wf(),
            nodes.wf(),
            at <= answers.len(),
        ensures
            out.0@ == call(
                name@,
                value_models(values@),
                self.env(nodes),
                answer_models(answers@),
                at as nat,
            ).0,
            out.1 == call(
                name@,
                value_models(values@),
                self.env(nodes),
                answer_models(answers@),
                at as nat,
            ).1,
            at <= out.1 <= answers.len(),
    {
        match self.functions.get(name) {
            None => (Outcome::Failed(EvalError::UnknownFunction), at),
            Some(f) => {
                if f.num_args != values.len() {
                    (Outcome::Failed(EvalError::ArityMismatch), at)
                } else {
                    match f.body {
                        FunctionBody::Visited => (visited_builtin(&values, nodes), at),
                        FunctionBody::Host(_) => {
                            if at < answers.len() {
                                assert(answer_models(answers@)[at as int] == answers@[at as int]@);
                                match &answers[at] {
                                    Answer::Returned(Ok(v)) => (Outcome::Value(v.clone()), at + 1),
                                    Answer::Returned(Err(_)) => (
                                        Outcome::Failed(EvalError::Rejected),
                                        at,
                                    ),
                                    _ => (Outcome::Failed(EvalError::Protocol), at),
                                }
                            } else {
                                (Outcome::Need(Request::Call(name.clone(), values)), at)
                            }
                        },
                    }
                }
            },
        }
    }

    /// Evaluates `expr` with the answers from position `at` on.
    pub fn eval_at(&self, expr: &Expr, nodes: &Nodes, answers: &Vec<Answer>, at: usize) -> (out: (
        Outcome,
        usize,
    ))
        requires
            self.wf(),
            nodes.wf(),
            at <= answers.len(),
        ensures
            out.0@ == eval(expr@, self.env(nodes), answer_models(answers@), at as nat).0,
            out.1 == eval(expr@, self.env(nodes), answer_models(answers@), at as nat).1,
            at <= out.1 <= answers.len(),
        decreases expr,
    {
        proof {
            reveal_with_fuel(crate::ast::expr_model, 2);
        }
        match expr {
            Expr::Parentheses(inner) => self.eval_at(inner, nodes, answers, at),
            Expr::Term(Term::Number(literal)) => number_answer(
                Request::Parse(literal.clone()),
                answers,
                at,
            ),
            Expr::Term(Term::Boolean(b)) => (Outcome::Value(Value::Boolean(*b)), at),
            Expr::Term(Term::String(s)) => (Outcome::Value(Value::String(s.clone())), at),
            Expr::Term(Term::Variable(name)) => {
                match self.variables.0.get(&name.0) {
                    Some(v) => (Outcome::Value(v.clone()), at),
                    None => (Outcome::Failed(EvalError::UnknownVariable), at),
                }
            },
            Expr::Term(Term::Function(name, args)) => {
                let ghost env = self.env(nodes);
                let ghost given = answer_models(answers@);
                let ghost models = expr_models(args@);
                let mut values: Vec<Value> = Vec::new();
                let mut next: usize = at;
                let mut i: usize = 0;
                assert(models.take(0) =~= Seq::<ExprModel>::empty());
                while i < args.len()
                    invariant
                        self.wf(),
                        nodes.wf(),
                        env == self.env(nodes),
                        given == answer_models(answers@),
                        models == expr_models(args@),
                        expr == Expr::Term(Term::Function(*name, *args)),
                        i <= args.len(),
                        at <= next <= answers.len(),
                        eval_all(models.take(i as int), env, given, at as nat) == (
                            value_models(values@),
                            None::<OutcomeModel>,
                            next as nat,
                        ),
                    decreases args.len() - i,
                {
                    proof {
                        let t = expr->Term_0;
                        assert(decreases_to!(t => t->Function_1));
                        assert(decreases_to!(args => args[i as int]));
                    }
                    let (o, after) = self.eval_at(&args[i], nodes, answers, next);
                    proof {
                        let upto = models.take(i as int + 1);
                        assert(upto.drop_last() =~= models.take(i as int));
                        assert(upto.last() == args@[i as int]@);
                    }
                    match o {
                        Outcome::Value(v) => {
                            proof {
                                assert(value_models(values@.push(v)) =~= value_models(
                                    values@,
                                ).push(v@));
                            }
                            values.push(v);
                            next = after;
                        },
                        _ => {
                            proof {
                                reveal_with_fuel(crate::ast::expr_model, 2);
                                lemma_eval_all_stops(models, i as int + 1, env, given, at as nat);
                                assert(models.take(models.len() as int) =~= models);
                            }
                            return (o, after);
                        },
                    }
                    i += 1;
                }
                proof {
                    assert(models.take(i as int) =~= models);
                    assert(expr@ == ExprModel::Term(TermModel::Function(name@, models)));
                }
                self.call_at(name, values, nodes, answers, next)
            },
            Expr::Unary(op, inner) => {
                let (o, after) = self.eval_at(inner, nodes, answers, at);
                match o {
                    Outcome::Value(v) => (Outcome::Value(apply_unary(*op, &v)), after),
                    _ => (o, after),
                }
            },
            Expr::Binary(op, left, right) => {
                let (lo, at1) = self.eval_at(left, nodes, answers, at);
                match lo {
                    Outcome::Value(l) => {
                        let (ro, at2) = self.eval_at(right, nodes, answers, at1);
                        match ro {
                            Outcome::Value(r) => combine(*op, &l, &r, answers, at2),
                            _ => (ro, at2),
                        }
                    },
                    _ => (lo, at1),
                }
            },
        }
    }

    /// Evaluates `expr` against this state, `state` and the answers given
    /// so far.
    pub fn evaluate(&self, expr: &Expr, state: &Nodes, answers: &Vec<Answer>) -> (r: Outcome)
        requires
            self.wf(),
            state.wf(),
        ensures
            r@ == eval(expr@, self.env(state), answer_models(answers@), 0).0,
    {
        self.eval_at(expr, state, answers, 0).0
    }
}

/// Once an argument has no value, the arguments after it are not looked
/// at.
pub proof fn lemma_eval_all_stops(
    args: Seq<ExprModel>,
    n: int,
    env: Env,
    answers: Seq<AnswerModel>,
    at: nat,
)
    requires
        0 <= n <= args.len(),
        eval_all(args.take(n), env, answers, at).1 is Some,
    ensures
        eval_all(args, env, answers, at) == eval_all(args.take(n), env, answers, at),
    decreases args.len() - n,
{
    if n == args.len() {
        assert(args.take(n) =~= args);
    } else {
        let longer = args.take(n + 1);
        assert(longer.drop_last() =~= args.take(n));
        lemma_eval_all_stops(args, n + 1, env, answers, at);
    }
}

} // verus!
