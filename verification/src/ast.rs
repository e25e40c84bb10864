//! The parsed form of a script: names, expressions, steps and choices, each
//! with the mathematical value it stands for.

use vstd::prelude::*;

verus! {

/// The name of a node.
#[derive(Debug, PartialEq, Eq, Hash)]
pub struct NodeName(pub String);

/// The name of a variable.
#[derive(Debug, PartialEq, Eq, Hash)]
pub struct VariableName(pub String);

impl View for NodeName {
    type V = Seq<char>;

    open spec fn view(&self) -> Seq<char> {
        self.0@
    }
}

impl View for VariableName {
    type V = Seq<char>;

    open spec fn view(&self) -> Seq<char> {
        self.0@
    }
}

impl Clone for NodeName {
    fn clone(&self) -> (r: NodeName)
        ensures
            r@ == self@,
    {
        NodeName(self.0.clone())
    }
}

impl Clone for VariableName {
    fn clone(&self) -> (r: VariableName)
        ensures
            r@ == self@,
    {
        VariableName(self.0.clone())
    }
}

/// The operators with one operand.
#[derive(Clone, Copy, Debug, PartialEq, Eq, Structural)]
pub enum UnaryOp {
    Not,
    Negate,
}

/// The operators with two operands.
#[derive(Clone, Copy, Debug, PartialEq, Eq, Structural)]
pub enum BinaryOp {
    And,
    Or,
    Plus,
    Minus,
    Multiply,
    Divide,
    Equals,
    NotEquals,
    GreaterThan,
    LessThan,
    GreaterThanEqual,
    LessThanEqual,
}

/// A leaf of an expression. A number is kept as the decimal literal that
/// the script wrote; its value is asked of the host when it is evaluated.
#[derive(Debug, PartialEq)]
pub enum Term {
    Number(String),
    Boolean(bool),
    String(String),
    Variable(VariableName),
    Function(String, Vec<Expr>),
}

/// An expression. Parentheses are kept as the script wrote them.
#[derive(Debug, PartialEq)]
pub enum Expr {
    Unary(UnaryOp, Box<Expr>),
    Binary(BinaryOp, Box<Expr>, Box<Expr>),
    Term(Term),
    Parentheses(Box<Expr>),
}

pub ghost enum TermModel {
    Number(Seq<char>),
    Boolean(bool),
    String(Seq<char>),
    Variable(Seq<char>),
    Function(Seq<char>, Seq<ExprModel>),
}

pub ghost enum ExprModel {
    Unary(UnaryOp, Box<ExprModel>),
    Binary(BinaryOp, Box<ExprModel>, Box<ExprModel>),
    Term(TermModel),
    Parentheses(Box<ExprModel>),
}

/// What an expression stands for.
pub open spec fn expr_model(e: Expr) -> ExprModel
    decreases e,
{
    match e {
        Expr::Unary(op, inner) => ExprModel::Unary(op, Box::new(expr_model(*inner))),
        Expr::Binary(op, left, right) => ExprModel::Binary(
            op,
            Box::new(expr_model(*left)),
            Box::new(expr_model(*right)),
        ),
        Expr::Term(t) => ExprModel::Term(term_model(t)),
        Expr::Parentheses(inner) => ExprModel::Parentheses(Box::new(expr_model(*inner))),
    }
}

/// What a term stands for.
pub open spec fn term_model(t: Term) -> TermModel
    decreases t,
{
    match t {
        Term::Number(s) => TermModel::Number(s@),
        Term::Boolean(b) => TermModel::Boolean(b),
        Term::String(s) => TermModel::String(s@),
        Term::Variable(n) => TermModel::Variable(n@),
        Term::Function(name, args) => TermModel::Function(name@, expr_models(args@)),
    }
}

/// What a list of expressions stands for.
pub open spec fn expr_models(args: Seq<Expr>) -> Seq<ExprModel>
    decreases args,
{
    Seq::new(
        args.len(),
        |i: int|
            if 0 <= i < args.len() {
                expr_model(args[i])
            } else {
                arbitrary()
            },
    )
}

impl View for Expr {
    type V = ExprModel;

    open spec fn view(&self) -> ExprModel {
        expr_model(*self)
    }
}

impl View for Term {
    type V = TermModel;

    open spec fn view(&self) -> TermModel {
        term_model(*self)
    }
}

/// A player-selectable option. A shortcut option may carry a condition; it
/// is kept as written and not evaluated.
#[derive(Debug, PartialEq)]
pub struct Choice {
    pub text: String,
    pub kind: ChoiceKind,
}

/// Where a choice leads: out of the node, or into steps of its own.
#[derive(Debug, PartialEq)]
pub enum ChoiceKind {
    External(NodeName),
    Inline(Vec<Step>, Option<Expr>),
}

/// One executable unit of a node.
#[derive(Debug, PartialEq)]
pub enum Step {
    Dialogue(String, Vec<Choice>),
    Command(String),
    Assign(VariableName, Expr),
    Conditional(Expr, Vec<Step>, Vec<(Expr, Vec<Step>)>, Vec<Step>),
    Jump(NodeName),
}

pub ghost struct ChoiceModel {
    pub text: Seq<char>,
    pub kind: ChoiceKindModel,
}

pub ghost enum ChoiceKindModel {
    External(Seq<char>),
    Inline(Seq<StepModel>, Option<ExprModel>),
}

pub ghost enum StepModel {
    Dialogue(Seq<char>, Seq<ChoiceModel>),
    Command(Seq<char>),
    Assign(Seq<char>, ExprModel),
    Conditional(ExprModel, Seq<StepModel>, Seq<(ExprModel, Seq<StepModel>)>, Seq<StepModel>),
    Jump(Seq<char>),
}

/// What a step stands for.
pub open spec fn step_model(s: Step) -> StepModel
    decreases s,
{
    match s {
        Step::Dialogue(text, choices) => StepModel::Dialogue(text@, choice_models(choices@)),
        Step::Command(text) => StepModel::Command(text@),
        Step::Assign(name, e) => StepModel::Assign(name@, expr_model(e)),
        Step::Conditional(cond, then_steps, else_ifs, else_steps) => StepModel::Conditional(
            expr_model(cond),
            step_models(then_steps@),
            branch_models(else_ifs@),
            step_models(else_steps@),
        ),
        Step::Jump(name) => StepModel::Jump(name@),
    }
}

/// What a list of steps stands for.
pub open spec fn step_models(steps: Seq<Step>) -> Seq<StepModel>
    decreases steps,
{
    Seq::new(
        steps.len(),
        |i: int|
            if 0 <= i < steps.len() {
                step_model(steps[i])
            } else {
                arbitrary()
            },
    )
}

/// What a list of choices stands for.
pub open spec fn choice_models(choices: Seq<Choice>) -> Seq<ChoiceModel>
    decreases choices,
{
    Seq::new(
        choices.len(),
        |i: int|
            if 0 <= i < choices.len() {
                choice_model(choices[i])
            } else {
                arbitrary()
            },
    )
}

/// What a list of conditions with their steps stands for.
pub open spec fn branch_models(branches: Seq<(Expr, Vec<Step>)>) -> Seq<
    (ExprModel, Seq<StepModel>),
>
    decreases branches,
{
    Seq::new(
        branches.len(),
        |i: int|
            if 0 <= i < branches.len() {
                (expr_model(branches[i].0), step_models(branches[i].1@))
            } else {
                arbitrary()
            },
    )
}

/// What a choice stands for.
pub open spec fn choice_model(c: Choice) -> ChoiceModel
    decreases c,
{
    ChoiceModel {
        text: c.text@,
        kind: match c.kind {
            ChoiceKind::External(name) => ChoiceKindModel::External(name@),
            ChoiceKind::Inline(steps, guard) => ChoiceKindModel::Inline(
                step_models(steps@),
                match guard {
                    Some(e) => Some(expr_model(e)),
                    None => None,
                },
            ),
        },
    }
}

impl View for Step {
    type V = StepModel;

    open spec fn view(&self) -> StepModel {
        step_model(*self)
    }
}

impl View for Choice {
    type V = ChoiceModel;

    open spec fn view(&self) -> ChoiceModel {
        choice_model(*self)
    }
}

impl Choice {
    /// A choice that leaves the node for `name`.
    pub fn external(text: String, name: NodeName) -> (c: Choice)
        ensures
            c@ == (ChoiceModel { text: text@, kind: ChoiceKindModel::External(name@) }),
    {
        Choice { text, kind: ChoiceKind::External(name) }
    }

    /// A choice that continues with `steps` inside the node.
    pub fn inline(text: String, steps: Vec<Step>, condition: Option<Expr>) -> (c: Choice)
        ensures
            c@ == (ChoiceModel {
                text: text@,
                kind: ChoiceKindModel::Inline(
                    step_models(steps@),
                    match condition {
                        Some(e) => Some(e@),
                        None => None,
                    },
                ),
            }),
    {
        Choice { text, kind: ChoiceKind::Inline(steps, condition) }
    }
}

} // verus!
