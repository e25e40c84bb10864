//! Properties of the engine that hold of every state, proved from the
//! definitions of its transitions.

use vstd::prelude::*;
use crate::ast::{BinaryOp, ChoiceKindModel, ChoiceModel, ExprModel, StepModel, TermModel};
use crate::conversation::{ConversationModel, Scope, enter, resolve};
use crate::engine::{
    EngineModel, EntryModel, PullModel, SelectionModel, merged, select, visited_name,
};
use crate::eval::{
    AnswerModel, ArithOp, Env, EvalError, OutcomeModel, RequestModel, binary, eval, eval_all,
};
use crate::number::{Number, ONE};
use crate::node::{NodeModel, visit};
use crate::parse::{node, nodes, parse_nodes};
use crate::scan::{ItemModel, items_from};
use crate::value::{ValueModel, bool_text};

verus! {

/// Entering a scope below the step that a path resolves to leads to the
/// step at the scope's position inside what the scope opens.
pub proof fn lemma_resolve_entered(steps: Seq<StepModel>, at: nat, path: Seq<Scope>, scope: Scope)
    ensures
        resolve(steps, at, path.push(scope)) == match resolve(steps, at, path) {
            Some(step) => match enter(step, scope) {
                Some(inner) => if scope.inner() < inner.len() {
                    Some(inner[scope.inner() as int])
                } else {
                    None
                },
                None => None,
            },
            None => None,
        },
    decreases path.len(),
{
    if at >= steps.len() {
    } else if path.len() == 0 {
        let one = path.push(scope);
        assert(one[0] == scope);
        assert(one.drop_first() =~= Seq::<Scope>::empty());
        match enter(steps[at as int], scope) {
            Some(inner) => {
                assert(resolve(inner, scope.inner(), Seq::<Scope>::empty()) == (if scope.inner()
                    < inner.len() {
                    Some(inner[scope.inner() as int])
                } else {
                    None
                }));
            },
            None => {},
        }
    } else {
        let longer = path.push(scope);
        assert(longer[0] == path[0]);
        assert(longer.drop_first() =~= path.drop_first().push(scope));
        match enter(steps[at as int], path[0]) {
            Some(inner) => {
                lemma_resolve_entered(inner, path[0].inner(), path.drop_first(), scope);
            },
            None => {},
        }
    }
}

/// A node whose only step is a plain line of dialogue: once it is
/// activated, the first pull says the line, the second reports the end of
/// the conversation, and every pull after that hands out nothing.
pub proof fn law_single_line(m: EngineModel, title: Seq<char>, line: Seq<char>)
    requires
        m.nodes.contains_key(title),
        m.nodes[title].steps == seq![StepModel::Dialogue(line, Seq::<ChoiceModel>::empty())],
    ensures
        ({
            let first = m.activated(title).stepped();
            let second = first.0.stepped();
            let third = second.0.stepped();
            &&& first.1 == PullModel::Entry(EntryModel::Say(line))
            &&& second.1 == PullModel::Entry(EntryModel::EndConversation)
            &&& third.1 == PullModel::Idle
            &&& third.0 == second.0
        }),
{
    let a = m.activated(title);
    let steps = a.nodes[title].steps;
    assert(steps == m.nodes[title].steps);
    assert(resolve(steps, 0, Seq::<Scope>::empty()) == Some(steps[0]));
    let first = a.stepped();
    assert(first.1 == PullModel::Entry(EntryModel::Say(line)));
    let c = first.0.conversation->0;
    assert(c == ConversationModel::fresh(title).advanced());
    assert(resolve(steps, 1, Seq::<Scope>::empty()) is None);
}

/// No pull leaves a scope. Unless the step is a jump, the conversation
/// stays in its node, the scopes entered so far stay entered, and the
/// top-level position does not go back; all that changes is the innermost
/// position, or one more scope that is entered.
pub proof fn law_scopes_are_not_left(m: EngineModel)
    requires
        m.conversation is Some,
        !(m.current() is Some && m.current()->0 is Jump),
    ensures
        m.stepped().0.conversation matches Some(after) && {
            let before = m.conversation->0;
            &&& after.node == before.node
            &&& after.base_index >= before.base_index
            &&& after.indexes.len() >= before.indexes.len()
            &&& forall|i: int|
                0 <= i < before.indexes.len() - 1 ==> after.indexes[i] == before.indexes[i]
        },
{
}

/// Where the conversation stands at no step, be it past the end of the
/// node or past the end of a scope inside it, the conversation ends: the
/// pull reports the end, and the pulls after it hand out nothing.
pub proof fn law_exhausted_scope_ends(m: EngineModel)
    requires
        m.conversation is Some,
        !m.ended,
        m.current() is None,
    ensures
        m.stepped().1 == PullModel::Entry(EntryModel::EndConversation),
        m.stepped().0.conversation == m.conversation,
        m.stepped().0.stepped() == (m.stepped().0, PullModel::Idle),
{
}

/// At a dialogue with choices a pull hands out the `Choose` event and
/// leaves the engine where it is: pulling again, however often, hands out
/// the identical event until a choice is made.
pub proof fn law_choose_repeats(m: EngineModel)
    requires
        m.stepped().1 is Entry,
        m.stepped().1->Entry_0 is Choose,
    ensures
        m.stepped().0.stepped() == m.stepped(),
        m.stepped().0.conversation == m.conversation,
        m.stepped().0.nodes == m.nodes,
        m.stepped().0.variables == m.variables,
{
}

/// With a falsy primary condition and a truthy first else-if condition, the
/// engine enters the first else-if branch and no other: the steps it walks
/// from there are that branch's steps, position by position.
pub proof fn law_else_if_entered(
    m: EngineModel,
    cond: ExprModel,
    then_steps: Seq<StepModel>,
    else_ifs: Seq<(ExprModel, Seq<StepModel>)>,
    else_steps: Seq<StepModel>,
)
    requires
        m.conversation is Some,
        !m.ended,
        m.current() == Some(StepModel::Conditional(cond, then_steps, else_ifs, else_steps)),
        else_ifs.len() > 0,
        eval(cond, m.env(), m.pending, 0).0 matches OutcomeModel::Value(v) && !v.truthy(),
        eval(else_ifs[0].0, m.env(), m.pending, eval(cond, m.env(), m.pending, 0).1).0
            matches OutcomeModel::Value(v) && v.truthy(),
    ensures
        m.stepped().1 == PullModel::Continue,
        m.stepped().0.conversation == Some(m.conversation->0.entered(Scope::ElseIf(0, 0))),
        m.stepped().0.nodes == m.nodes,
        forall|k: nat|
            #[trigger] resolve(
                m.nodes[m.conversation->0.node].steps,
                m.conversation->0.base_index,
                m.conversation->0.indexes.push(Scope::ElseIf(0, k)),
            ) == (if k < else_ifs[0].1.len() {
                Some(else_ifs[0].1[k as int])
            } else {
                None
            }),
{
    let c = m.conversation->0;
    assert(select(cond, else_ifs, m.env(), m.pending) == SelectionModel::Taken(Scope::ElseIf(0, 0)));
    assert forall|k: nat|
        #[trigger] resolve(
            m.nodes[c.node].steps,
            c.base_index,
            c.indexes.push(Scope::ElseIf(0, k)),
        ) == (if k < else_ifs[0].1.len() {
            Some(else_ifs[0].1[k as int])
        } else {
            None
        }) by {
        lemma_resolve_entered(m.nodes[c.node].steps, c.base_index, c.indexes, Scope::ElseIf(0, k));
    }
}

/// Whatever the conditions are, a conditional that is entered is entered
/// through exactly one scope: the first branch, an else-if branch that
/// exists, or the else branch, each at its first position.
pub proof fn law_one_branch(
    cond: ExprModel,
    else_ifs: Seq<(ExprModel, Seq<StepModel>)>,
    env: Env,
    answers: Seq<AnswerModel>,
)
    ensures
        select(cond, else_ifs, env, answers) matches SelectionModel::Taken(scope) ==> {
            ||| scope == Scope::If(0)
            ||| scope == Scope::Else(0)
            ||| exists|i: nat| i < else_ifs.len() && scope == Scope::ElseIf(i, 0)
        },
{
    let (o, at) = eval(cond, env, answers, 0);
    lemma_else_if_in_range(else_ifs, 0, env, answers, at);
}

proof fn lemma_else_if_in_range(
    else_ifs: Seq<(ExprModel, Seq<StepModel>)>,
    i: nat,
    env: Env,
    answers: Seq<AnswerModel>,
    at: nat,
)
    ensures
        crate::engine::select_else_if(else_ifs, i, env, answers, at) matches SelectionModel::Taken(
            scope,
        ) ==> {
            ||| scope == Scope::Else(0)
            ||| exists|j: nat| j < else_ifs.len() && scope == Scope::ElseIf(j, 0)
        },
    decreases else_ifs.len() - i,
{
    if i < else_ifs.len() {
        let (o, at1) = eval(else_ifs[i as int].0, env, answers, at);
        lemma_else_if_in_range(else_ifs, i + 1, env, answers, at1);
    }
}

/// Choosing an external option discards every scope entered so far: the
/// conversation afterwards is a fresh one at the target node, and the step
/// it stands at is the target's first top-level step, if it has one.
pub proof fn law_external_choice(
    m: EngineModel,
    choice: nat,
    text: Seq<char>,
    choices: Seq<ChoiceModel>,
    target: Seq<char>,
)
    requires
        m.conversation is Some,
        m.current() == Some(StepModel::Dialogue(text, choices)),
        choice < choices.len(),
        choices[choice as int].kind == ChoiceKindModel::External(target),
    ensures
        m.chosen(choice) matches Ok(after) && {
            &&& after.conversation == Some(ConversationModel::fresh(target))
            &&& after.nodes.dom() == m.nodes.dom()
            &&& m.nodes.contains_key(target) ==> after.nodes[target].steps == m.nodes[target].steps
            &&& after.current() == (if m.nodes.contains_key(target) && m.nodes[target].steps.len()
                > 0 {
                Some(m.nodes[target].steps[0])
            } else {
                None
            })
        },
{
    let after = m.moved_to(target);
    assert(after.nodes.dom() =~= m.nodes.dom());
}

/// Every node that comes out of the parser is unvisited.
pub proof fn law_parsed_nodes_unvisited(text: Seq<char>)
    ensures
        parse_nodes(text) matches Some(found) ==> forall|i: int|
            0 <= i < found.len() ==> !(#[trigger] found[i]).visited,
{
    match items_from(text, 0) {
        Some(items) => {
            lemma_nodes_unvisited(items);
        },
        None => {},
    }
}

proof fn lemma_nodes_unvisited(items: Seq<ItemModel>)
    ensures
        nodes(items) matches Some(found) ==> forall|i: int|
            0 <= i < found.len() ==> !(#[trigger] found[i]).visited,
    decreases items.len(),
{
    if items.len() > 0 {
        match node(items) {
            Some((first, left)) => {
                if left.len() < items.len() {
                    lemma_nodes_unvisited(left);
                }
            },
            None => {},
        }
    }
}

/// A node that a load brought in is unvisited afterwards, whatever was held
/// under its title before.
pub proof fn law_loaded_node_unvisited(
    before: Map<Seq<char>, NodeModel>,
    added: Seq<NodeModel>,
    title: Seq<char>,
)
    requires
        forall|i: int| 0 <= i < added.len() ==> !(#[trigger] added[i]).visited,
        exists|i: int| 0 <= i < added.len() && (#[trigger] added[i]).title == title,
    ensures
        merged(before, added).contains_key(title),
        !merged(before, added)[title].visited,
    decreases added.len(),
{
    let last = added.last();
    if last.title != title {
        let earlier = added.drop_last();
        let i = choose|i: int| 0 <= i < added.len() && (#[trigger] added[i]).title == title;
        assert(earlier[i] == added[i]);
        assert forall|j: int| 0 <= j < earlier.len() implies !(#[trigger] earlier[j]).visited by {
            assert(earlier[j] == added[j]);
        }
        law_loaded_node_unvisited(before, earlier, title);
    }
}

/// Activating a node marks it as visited.
pub proof fn law_activation_marks(m: EngineModel, node: Seq<char>)
    requires
        m.nodes.contains_key(node),
    ensures
        m.activated(node).nodes.contains_key(node),
        m.activated(node).nodes[node].visited,
{
}

/// A node that was visited stays visited over every pull, choice, answer,
/// assignment, registration and activation.
pub proof fn law_visited_is_kept(m: EngineModel, node: Seq<char>)
    requires
        m.nodes.contains_key(node),
        m.nodes[node].visited,
    ensures
        m.stepped().0.nodes.contains_key(node) && m.stepped().0.nodes[node].visited,
        forall|choice: nat| #[trigger]
            m.chosen(choice) matches Ok(after) ==> after.nodes.contains_key(node)
                && after.nodes[node].visited,
        forall|other: Seq<char>|
            (#[trigger] m.activated(other)).nodes.contains_key(node) && m.activated(
                other,
            ).nodes[node].visited,
        forall|a: AnswerModel| (#[trigger] m.supplied(a)).nodes == m.nodes,
        forall|name: Seq<char>, v: ValueModel| (#[trigger] m.assigned(name, v)).nodes == m.nodes,
        forall|name: Seq<char>, n: nat| (#[trigger] m.registered(name, n)).nodes == m.nodes,
{
    assert forall|other: Seq<char>|
        visit(m.nodes, other).contains_key(node) && (#[trigger] visit(
            m.nodes,
            other,
        ))[node].visited by {}
}

/// A pull that is no jump, and a choice that leaves for another node, do
/// not mark a node as visited: only becoming the target of the conversation
/// does.
pub proof fn law_unvisited_is_kept(m: EngineModel, node: Seq<char>)
    requires
        m.nodes.contains_key(node),
        !m.nodes[node].visited,
        !(m.current() matches Some(StepModel::Jump(target)) && target == node),
    ensures
        m.stepped().0.nodes.contains_key(node),
        !m.stepped().0.nodes[node].visited,
{
}

/// While `visited` is the built-in, the expression `visited("A")` is true
/// exactly when the node `A` was visited, and is an error for a name that
/// no node has. No answer of the host is consulted.
pub proof fn law_visited_expression(env: Env, node: Seq<char>, answers: Seq<AnswerModel>, at: nat)
    requires
        env.functions.contains_key(visited_name()),
        env.functions[visited_name()].builtin,
        env.functions[visited_name()].arity == 1,
    ensures
        eval(
            ExprModel::Term(
                TermModel::Function(
                    visited_name(),
                    seq![ExprModel::Term(TermModel::String(node))],
                ),
            ),
            env,
            answers,
            at,
        ).0 == (if env.visited.contains_key(node) {
            OutcomeModel::Value(ValueModel::Boolean(env.visited[node]))
        } else {
            OutcomeModel::Failed(EvalError::Rejected)
        }),
{
    let arg = ExprModel::Term(TermModel::String(node));
    let args = seq![arg];
    reveal_with_fuel(eval_all, 3);
    reveal_with_fuel(eval, 3);
    assert(args.drop_last() =~= Seq::<ExprModel>::empty());
    assert(args.last() == arg);
    assert(eval_all(args, env, answers, at) == (seq![ValueModel::String(node)], None::<
        OutcomeModel,
    >, at));
}

/// A call of a function that is not registered, or with another number of
/// arguments than the function declares, never has a value: once its
/// arguments have values it is an error, and an argument without a value
/// ends the evaluation before the call.
pub proof fn law_bad_call_fails(
    name: Seq<char>,
    args: Seq<ExprModel>,
    env: Env,
    answers: Seq<AnswerModel>,
    at: nat,
)
    requires
        !env.functions.contains_key(name) || env.functions[name].arity != args.len(),
    ensures
        ({
            let outcome = eval(ExprModel::Term(TermModel::Function(name, args)), env, answers, at).0;
            let evaluated = eval_all(args, env, answers, at);
            &&& !(outcome is Value)
            &&& evaluated.1 is None ==> outcome == (if !env.functions.contains_key(name) {
                OutcomeModel::Failed(EvalError::UnknownFunction)
            } else {
                OutcomeModel::Failed(EvalError::ArityMismatch)
            })
            &&& evaluated.1 matches Some(o) ==> outcome == o
        }),
{
    lemma_eval_all_counts(args, env, answers, at);
}

/// Arguments that all have values give as many values as there are
/// arguments; an outcome that stops them is never a value.
pub proof fn lemma_eval_all_counts(
    args: Seq<ExprModel>,
    env: Env,
    answers: Seq<AnswerModel>,
    at: nat,
)
    ensures
        eval_all(args, env, answers, at).1 is None ==> eval_all(args, env, answers, at).0.len()
            == args.len(),
        eval_all(args, env, answers, at).1 matches Some(o) ==> !(o is Value),
    decreases args.len(),
{
    if args.len() > 0 {
        lemma_eval_all_counts(args.drop_last(), env, answers, at);
    }
}

/// What answers already given have decided stays decided: an evaluation
/// that ended in a value or an error ends in the same way, at the same
/// position, when more answers follow. An evaluation consumes answers only
/// at or after the position it started from, and one that ends in a request
/// has used up every answer.
pub proof fn law_evaluation_resumes(
    e: ExprModel,
    env: Env,
    given: Seq<AnswerModel>,
    more: Seq<AnswerModel>,
    at: nat,
)
    requires
        at <= given.len(),
    ensures
        at <= eval(e, env, given, at).1 <= given.len(),
        eval(e, env, given, at).0 is Need ==> eval(e, env, given, at).1 == given.len(),
        !(eval(e, env, given, at).0 is Need) ==> eval(e, env, given + more, at) == eval(
            e,
            env,
            given,
            at,
        ),
    decreases e, 0nat,
{
    let longer = given + more;
    assert forall|i: int| 0 <= i < given.len() implies longer[i] == given[i] by {}
    match e {
        ExprModel::Parentheses(inner) => {
            law_evaluation_resumes(*inner, env, given, more, at);
        },
        ExprModel::Term(TermModel::Function(name, args)) => {
            lemma_arguments_resume(args, env, given, more, at);
        },
        ExprModel::Term(_) => {},
        ExprModel::Unary(op, inner) => {
            law_evaluation_resumes(*inner, env, given, more, at);
        },
        ExprModel::Binary(op, left, right) => {
            law_evaluation_resumes(*left, env, given, more, at);
            let (lo, at1) = eval(*left, env, given, at);
            if lo is Value {
                law_evaluation_resumes(*right, env, given, more, at1);
            }
        },
    }
}

/// The same for the arguments of a call.
pub proof fn lemma_arguments_resume(
    args: Seq<ExprModel>,
    env: Env,
    given: Seq<AnswerModel>,
    more: Seq<AnswerModel>,
    at: nat,
)
    requires
        at <= given.len(),
    ensures
        at <= eval_all(args, env, given, at).2 <= given.len(),
        eval_all(args, env, given, at).1 matches Some(o) ==> (o is Need ==> eval_all(
            args,
            env,
            given,
            at,
        ).2 == given.len()),
        !(eval_all(args, env, given, at).1 matches Some(o) && o is Need) ==> eval_all(
            args,
            env,
            given + more,
            at,
        ) == eval_all(args, env, given, at),
    decreases args, 1nat,
{
    if args.len() > 0 {
        lemma_arguments_resume(args.drop_last(), env, given, more, at);
        let (values, outcome, at1) = eval_all(args.drop_last(), env, given, at);
        if outcome is None {
            law_evaluation_resumes(args.last(), env, given, more, at1);
        }
    }
}

/// Equality across kinds does not depend on the order of its sides.
pub proof fn law_equality_is_symmetric(a: ValueModel, b: ValueModel, decimal: Seq<char>)
    ensures
        a.equals(b, decimal) == b.equals(a, decimal),
{
}

/// A string equals a number exactly when it is the number's decimal text,
/// and a boolean exactly when it is `true` or `false` as the boolean is.
pub proof fn law_string_equality(s: Seq<char>, n: Number, b: bool, decimal: Seq<char>)
    ensures
        ValueModel::String(s).equals(ValueModel::Number(n), decimal) == (s == decimal),
        ValueModel::String(s).equals(ValueModel::Boolean(b), decimal) == (s == bool_text(b)),
{
}

/// Equality across kinds is not transitive: the string `1` equals the
/// number one, the number one equals `true`, and the string `1` does not
/// equal `true`.
pub proof fn law_equality_is_not_transitive()
    ensures
        ({
            let text = ValueModel::String(seq!['1']);
            let one = ValueModel::Number(Number { bits: ONE });
            let yes = ValueModel::Boolean(true);
            &&& text.equals(one, seq!['1'])
            &&& one.equals(yes, seq!['1'])
            &&& !text.equals(yes, seq!['1'])
        }),
{
    assert(seq!['1'].len() != bool_text(true).len());
}

/// Without a string on either side, `+` adds the numeric representations:
/// it asks for the sum of the two, a boolean counting as one or zero.
pub proof fn law_plus_adds_numbers(
    l: ValueModel,
    r: ValueModel,
    answers: Seq<AnswerModel>,
    at: nat,
)
    requires
        !(l is String),
        !(r is String),
        at >= answers.len(),
    ensures
        binary(BinaryOp::Plus, l, r, answers, at).0 == OutcomeModel::Need(
            RequestModel::Arith(ArithOp::Add, l.number(), r.number()),
        ),
        forall|sum: Number|
            binary(BinaryOp::Plus, l, r, answers.push(AnswerModel::Number(sum)), answers.len()).0
                == OutcomeModel::Value(ValueModel::Number(sum)),
{
}

/// Reading a variable that was never assigned is an error.
pub proof fn law_unknown_variable_fails(
    name: Seq<char>,
    env: Env,
    answers: Seq<AnswerModel>,
    at: nat,
)
    requires
        !env.variables.contains_key(name),
    ensures
        eval(ExprModel::Term(TermModel::Variable(name)), env, answers, at).0
            == OutcomeModel::Failed(EvalError::UnknownVariable),
{
}

} // verus!
