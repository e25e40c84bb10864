//! The grammar of expressions.
//!
//! An expression is one primary term, optionally followed by one binary
//! operator and a further expression. There are no precedence levels: the
//! right-hand side of an operator is everything that follows it, so
//! `a + b * c` reads as `a + (b * c)` and `a * b + c` as `a * (b + c)`.
//!
//! A primary term is a number; `!` or `-` in front of an expression; `$`
//! and a name, for a variable; an expression in parentheses; or a name, an
//! opening parenthesis, any number of expressions one after another, and a
//! closing parenthesis, for a function call.

use vstd::prelude::*;
use vstd::string::StringExecFns;
use crate::ast::{
    BinaryOp, Expr, ExprModel, Term, TermModel, UnaryOp, VariableName, expr_model, expr_models,
};
use crate::lexer::{Token, TokenModel, token_models, tokenize, tokens_from};
use crate::text::Text;

verus! {

/// The operator that a word names.
pub open spec fn word_operator(w: Seq<char>) -> Option<BinaryOp> {
    if w == "and"@ {
        Some(BinaryOp::And)
    } else if w == "or"@ {
        Some(BinaryOp::Or)
    } else if w == "eq"@ {
        Some(BinaryOp::Equals)
    } else if w == "neq"@ {
        Some(BinaryOp::NotEquals)
    } else {
        None
    }
}

/// The binary operator that starts at token `i`, with the position behind
/// it. `==` and `!=` are two tokens each.
pub open spec fn operator_at(ts: Seq<TokenModel>, i: nat) -> Option<(BinaryOp, nat)> {
    if i >= ts.len() {
        None
    } else {
        match ts[i as int] {
            TokenModel::Symbol(c) => if c == '+' {
                Some((BinaryOp::Plus, i + 1))
            } else if c == '-' {
                Some((BinaryOp::Minus, i + 1))
            } else if c == '*' {
                Some((BinaryOp::Multiply, i + 1))
            } else if c == '/' {
                Some((BinaryOp::Divide, i + 1))
            } else if c == '=' && i + 1 < ts.len() && ts[i as int + 1] == TokenModel::Symbol('=') {
                Some((BinaryOp::Equals, i + 2))
            } else if c == '!' && i + 1 < ts.len() && ts[i as int + 1] == TokenModel::Symbol('=') {
                Some((BinaryOp::NotEquals, i + 2))
            } else {
                None
            },
            TokenModel::Word(w) => match word_operator(w) {
                Some(op) => Some((op, i + 1)),
                None => None,
            },
            TokenModel::Number(_) => None,
        }
    }
}

/// The expression that starts at token `i`, with the position behind it.
pub open spec fn parse_expr(ts: Seq<TokenModel>, i: nat) -> Option<(ExprModel, nat)>
    decreases ts.len() - i, 1nat,
{
    match parse_primary(ts, i) {
        None => None,
        Some((left, j)) => match operator_at(ts, j) {
            None => Some((left, j)),
            Some((op, k)) => if i < k <= ts.len() {
                match parse_expr(ts, k) {
                    None => None,
                    Some((right, m)) => Some(
                        (ExprModel::Binary(op, Box::new(left), Box::new(right)), m),
                    ),
                }
            } else {
                None
            },
        },
    }
}

/// The primary term that starts at token `i`, with the position behind
/// it.
pub open spec fn parse_primary(ts: Seq<TokenModel>, i: nat) -> Option<(ExprModel, nat)>
    decreases ts.len() - i, 0nat,
{
    if i >= ts.len() {
        None
    } else {
        match ts[i as int] {
            TokenModel::Number(literal) => Some(
                (ExprModel::Term(TermModel::Number(literal)), i + 1),
            ),
            TokenModel::Symbol(c) => if c == '!' || c == '-' {
                match parse_expr(ts, i + 1) {
                    None => None,
                    Some((inner, j)) => Some(
                        (
                            ExprModel::Unary(
                                if c == '!' {
                                    UnaryOp::Not
                                } else {
                                    UnaryOp::Negate
                                },
                                Box::new(inner),
                            ),
                            j,
                        ),
                    ),
                }
            } else if c == '$' {
                if i + 1 < ts.len() {
                    match ts[i as int + 1] {
                        TokenModel::Word(name) => Some(
                            (ExprModel::Term(TermModel::Variable(name)), i + 2),
                        ),
                        _ => None,
                    }
                } else {
                    None
                }
            } else if c == '(' {
                match parse_expr(ts, i + 1) {
                    None => None,
                    Some((inner, j)) => if j < ts.len() && ts[j as int] == TokenModel::Symbol(
                        ')',
                    ) {
                        Some((ExprModel::Parentheses(Box::new(inner)), j + 1))
                    } else {
                        None
                    },
                }
            } else {
                None
            },
            TokenModel::Word(name) => if i + 1 < ts.len() && ts[i as int + 1] == TokenModel::Symbol('(') {
                match parse_args(ts, i + 2) {
                    None => None,
                    Some((args, j)) => Some(
                        (ExprModel::Term(TermModel::Function(name, args)), j + 1),
                    ),
                }
            } else {
                None
            },
        }
    }
}

/// The arguments of a call from token `i` on, with the position of the
/// closing parenthesis.
pub open spec fn parse_args(ts: Seq<TokenModel>, i: nat) -> Option<(Seq<ExprModel>, nat)>
    decreases ts.len() - i, 2nat,
{
    if i >= ts.len() {
        None
    } else if ts[i as int] == TokenModel::Symbol(')') {
        Some((Seq::empty(), i))
    } else {
        match parse_expr(ts, i) {
            None => None,
            Some((first, j)) => if i < j <= ts.len() {
                match parse_args(ts, j) {
                    None => None,
                    Some((rest, k)) => Some((seq![first] + rest, k)),
                }
            } else {
                None
            },
        }
    }
}

/// The expression that `text` is, if it is one from its first token to its
/// last.
pub open spec fn parse_expression(text: Seq<char>) -> Option<ExprModel> {
    let ts = tokens_from(text, 0);
    match parse_expr(ts, 0) {
        Some((e, end)) => if end == ts.len() {
            Some(e)
        } else {
            None
        },
        None => None,
    }
}

/// Whether `w` is the word `literal`.
pub fn is_word(w: &String, literal: &str) -> (r: bool)
    ensures
        r == (w@ == literal@),
{
    let other = String::from_str(literal);
    *w == other
}

/// Whether token `i` is the symbol `c`.
pub fn symbol_at(ts: &Vec<Token>, i: usize, c: char) -> (r: bool)
    ensures
        r == (i < ts.len() && token_models(ts@)[i as int] == TokenModel::Symbol(c)),
{
    if i < ts.len() {
        match &ts[i] {
            Token::Symbol(d) => *d == c,
            _ => false,
        }
    } else {
        false
    }
}

/// The binary operator that starts at token `i`.
pub fn read_operator(ts: &Vec<Token>, i: usize) -> (r: Option<(BinaryOp, usize)>)
    ensures
        r == match operator_at(token_models(ts@), i as nat) {
            Some((op, k)) => Some((op, k as usize)),
            None => None,
        },
        r matches Some((_, k)) ==> i < k <= ts.len(),
{
    if i >= ts.len() {
        return None;
    }
    match &ts[i] {
        Token::Symbol(c) => {
            let c = *c;
            if c == '+' {
                Some((BinaryOp::Plus, i + 1))
            } else if c == '-' {
                Some((BinaryOp::Minus, i + 1))
            } else if c == '*' {
                Some((BinaryOp::Multiply, i + 1))
            } else if c == '/' {
                Some((BinaryOp::Divide, i + 1))
            } else if c == '=' && symbol_at(ts, i + 1, '=') {
                Some((BinaryOp::Equals, i + 2))
            } else if c == '!' && symbol_at(ts, i + 1, '=') {
                Some((BinaryOp::NotEquals, i + 2))
            } else {
                None
            }
        },
        Token::Word(w) => {
            if is_word(w, "and") {
                Some((BinaryOp::And, i + 1))
            } else if is_word(w, "or") {
                Some((BinaryOp::Or, i + 1))
            } else if is_word(w, "eq") {
                Some((BinaryOp::Equals, i + 1))
            } else if is_word(w, "neq") {
                Some((BinaryOp::NotEquals, i + 1))
            } else {
                None
            }
        },
        Token::Number(_) => None,
    }
}

/// The expression that starts at token `i`.
pub fn read_expr(ts: &Vec<Token>, i: usize) -> (r: Option<(Expr, usize)>)
    ensures
        r is Some <==> parse_expr(token_models(ts@), i as nat) is Some,
        r matches Some((e, j)) ==> parse_expr(token_models(ts@), i as nat) == Some((e@, j as nat))
            && i < j <= ts.len(),
    decreases ts.len() - i, 1nat,
{
    let (left, j) = match read_primary(ts, i) {
        None => {
            return None;
        },
        Some(found) => found,
    };
    match read_operator(ts, j) {
        None => Some((left, j)),
        Some((op, k)) => {
            match read_expr(ts, k) {
                None => None,
                Some((right, m)) => Some((Expr::Binary(op, Box::new(left), Box::new(right)), m)),
            }
        },
    }
}

/// The primary term that starts at token `i`.
pub fn read_primary(ts: &Vec<Token>, i: usize) -> (r: Option<(Expr, usize)>)
    ensures
        r is Some <==> parse_primary(token_models(ts@), i as nat) is Some,
        r matches Some((e, j)) ==> parse_primary(token_models(ts@), i as nat) == Some(
            (e@, j as nat),
        ) && i < j <= ts.len(),
    decreases ts.len() - i, 0nat,
{
    proof {
        reveal_with_fuel(expr_model, 2);
    }
    if i >= ts.len() {
        return None;
    }
    match &ts[i] {
        Token::Number(literal) => Some((Expr::Term(Term::Number(literal.clone())), i + 1)),
        Token::Symbol(c) => {
            let c = *c;
            if c == '!' || c == '-' {
                match read_expr(ts, i + 1) {
                    None => None,
                    Some((inner, j)) => {
                        let op = if c == '!' {
                            UnaryOp::Not
                        } else {
                            UnaryOp::Negate
                        };
                        Some((Expr::Unary(op, Box::new(inner)), j))
                    },
                }
            } else if c == '$' {
                if i + 1 < ts.len() {
                    match &ts[i + 1] {
                        Token::Word(name) => Some(
                            (Expr::Term(Term::Variable(VariableName(name.clone()))), i + 2),
                        ),
                        _ => None,
                    }
                } else {
                    None
                }
            } else if c == '(' {
                match read_expr(ts, i + 1) {
                    None => None,
                    Some((inner, j)) => {
                        if symbol_at(ts, j, ')') {
                            Some((Expr::Parentheses(Box::new(inner)), j + 1))
                        } else {
                            None
                        }
                    },
                }
            } else {
                None
            }
        },
        Token::Word(name) => {
            if symbol_at(ts, i + 1, '(') {
                match read_args(ts, i + 2) {
                    None => None,
                    Some((args, j)) => Some(
                        (Expr::Term(Term::Function(name.clone(), args)), j + 1),
                    ),
                }
            } else {
                None
            }
        },
    }
}

/// The arguments of a call from token `i` on, with the position of the
/// closing parenthesis.
pub fn read_args(ts: &Vec<Token>, i: usize) -> (r: Option<(Vec<Expr>, usize)>)
    requires
        i <= ts.len(),
    ensures
        r is Some <==> parse_args(token_models(ts@), i as nat) is Some,
        r matches Some((args, j)) ==> parse_args(token_models(ts@), i as nat) == Some(
            (expr_models(args@), j as nat),
        ) && i <= j < ts.len(),
    decreases ts.len() - i, 2nat,
{
    if i >= ts.len() {
        return None;
    }
    if symbol_at(ts, i, ')') {
        let args: Vec<Expr> = Vec::new();
        assert(expr_models(args@) =~= Seq::<ExprModel>::empty());
        return Some((args, i));
    }
    match read_expr(ts, i) {
        None => None,
        Some((first, j)) => {
            match read_args(ts, j) {
                None => None,
                Some((rest, k)) => {
                    let mut args: Vec<Expr> = Vec::new();
                    args.push(first);
                    let mut rest = rest;
                    let ghost tail = rest@;
                    args.append(&mut rest);
                    assert(expr_models(args@) =~= seq![first@] + expr_models(tail));
                    Some((args, k))
                },
            }
        },
    }
}

/// The expression that `chars` is, if it is one from its first token to
/// its last.
pub fn read_expression(chars: &Text) -> (r: Option<Expr>)
    ensures
        r is Some <==> parse_expression(chars@) is Some,
        r matches Some(e) ==> parse_expression(chars@) == Some(e@),
{
    let ts = tokenize(chars);
    match read_expr(&ts, 0) {
        Some((e, end)) => {
            if end == ts.len() {
                Some(e)
            } else {
                None
            }
        },
        None => None,
    }
}

} // verus!
