//! The position of a conversation inside a node: an index into the node's
//! top-level steps and a stack with one entry for each scope entered below
//! it.

use vstd::prelude::*;
use crate::ast::{
    ChoiceKind, ChoiceKindModel, NodeName, Step, StepModel, branch_models, choice_model,
    choice_models, step_model, step_models,
};

verus! {

/// One level of nesting together with the position inside it.
#[derive(Clone, Copy, Debug, PartialEq, Eq, Structural)]
pub enum StepIndex {
    /// Inside the steps of an inline choice: the choice, then the position.
    Dialogue(usize, usize),
    /// Inside the first branch of a conditional.
    If(usize),
    /// Inside an else-if branch: the branch, then the position.
    ElseIf(usize, usize),
    /// Inside the else branch.
    Else(usize),
}

/// What a `StepIndex` stands for, with unbounded positions.
pub ghost enum Scope {
    Dialogue(nat, nat),
    If(nat),
    ElseIf(nat, nat),
    Else(nat),
}

impl Scope {
    /// The position inside the scope.
    pub open spec fn inner(self) -> nat {
        match self {
            Scope::Dialogue(_, i) => i,
            Scope::If(i) => i,
            Scope::ElseIf(_, i) => i,
            Scope::Else(i) => i,
        }
    }

    /// The same scope, one position further.
    pub open spec fn advanced(self) -> Scope {
        match self {
            Scope::Dialogue(c, i) => Scope::Dialogue(c, i + 1),
            Scope::If(i) => Scope::If(i + 1),
            Scope::ElseIf(b, i) => Scope::ElseIf(b, i + 1),
            Scope::Else(i) => Scope::Else(i + 1),
        }
    }
}

impl View for StepIndex {
    type V = Scope;

    open spec fn view(&self) -> Scope {
        match self {
            StepIndex::Dialogue(c, i) => Scope::Dialogue(*c as nat, *i as nat),
            StepIndex::If(i) => Scope::If(*i as nat),
            StepIndex::ElseIf(b, i) => Scope::ElseIf(*b as nat, *i as nat),
            StepIndex::Else(i) => Scope::Else(*i as nat),
        }
    }
}

impl StepIndex {
    /// Moves to the next position inside the scope.
    pub fn advance(&mut self)
        requires
            old(self)@.inner() < usize::MAX,
        ensures
            final(self)@ == old(self)@.advanced(),
    {
        *self = match *self {
            StepIndex::Dialogue(c, i) => StepIndex::Dialogue(c, i + 1),
            StepIndex::If(i) => StepIndex::If(i + 1),
            StepIndex::ElseIf(b, i) => StepIndex::ElseIf(b, i + 1),
            StepIndex::Else(i) => StepIndex::Else(i + 1),
        };
    }
}

/// The live position within one active node.
#[derive(Debug)]
pub struct Conversation {
    pub node: NodeName,
    pub base_index: usize,
    pub indexes: Vec<StepIndex>,
}

pub ghost struct ConversationModel {
    pub node: Seq<char>,
    pub base_index: nat,
    pub indexes: Seq<Scope>,
}

/// The scopes that a stack of indexes stands for, outermost first.
pub open spec fn scopes(indexes: Seq<StepIndex>) -> Seq<Scope> {
    Seq::new(indexes.len(), |i: int| indexes[i]@)
}

impl View for Conversation {
    type V = ConversationModel;

    open spec fn view(&self) -> ConversationModel {
        ConversationModel {
            node: self.node@,
            base_index: self.base_index as nat,
            indexes: scopes(self.indexes@),
        }
    }
}

impl ConversationModel {
    /// A conversation at the first top-level step of `node`.
    pub open spec fn fresh(node: Seq<char>) -> ConversationModel {
        ConversationModel { node, base_index: 0, indexes: Seq::empty() }
    }

    /// The innermost position: that of the last scope entered, or the
    /// top-level index when none was.
    pub open spec fn position(self) -> nat {
        if self.indexes.len() == 0 {
            self.base_index
        } else {
            self.indexes.last().inner()
        }
    }

    /// The conversation with its innermost position moved on by one. No
    /// scope is left: past the end of a scope there is simply no step.
    pub open spec fn advanced(self) -> ConversationModel {
        if self.indexes.len() == 0 {
            ConversationModel { base_index: self.base_index + 1, ..self }
        } else {
            ConversationModel {
                indexes: self.indexes.update(
                    self.indexes.len() - 1,
                    self.indexes.last().advanced(),
                ),
                ..self
            }
        }
    }

    /// The conversation after entering `scope` below the current step.
    pub open spec fn entered(self, scope: Scope) -> ConversationModel {
        ConversationModel { indexes: self.indexes.push(scope), ..self }
    }
}

impl Conversation {
    /// A conversation at the first top-level step of `node`.
    pub fn new(node: NodeName) -> (c: Conversation)
        ensures
            c@ == ConversationModel::fresh(node@),
    {
        let c = Conversation { node, base_index: 0, indexes: Vec::new() };
        assert(c@.indexes =~= Seq::<Scope>::empty());
        c
    }

    /// Moves the innermost position on by one.
    pub fn advance(&mut self)
        requires
            old(self)@.position() < usize::MAX,
        ensures
            final(self)@ == old(self)@.advanced(),
    {
        let n = self.indexes.len();
        if n == 0 {
            self.base_index = self.base_index + 1;
            assert(self@.indexes =~= old(self)@.indexes);
        } else {
            let mut index = self.indexes[n - 1];
            assert(old(self)@.indexes.last() == index@);
            index.advance();
            self.indexes.set(n - 1, index);
            assert(self@.indexes =~= old(self)@.advanced().indexes);
        }
    }

    /// Enters a scope below the current step.
    pub fn push(&mut self, index: StepIndex)
        ensures
            final(self)@ == old(self)@.entered(index@),
    {
        self.indexes.push(index);
        assert(self@.indexes =~= old(self)@.indexes.push(index@));
    }
}

/// The steps that `scope` leads into from `step`: the steps of an inline
/// choice of a dialogue, or a branch of a conditional. `None` where the
/// scope does not fit the step.
pub open spec fn enter(step: StepModel, scope: Scope) -> Option<Seq<StepModel>> {
    match (step, scope) {
        (StepModel::Dialogue(_, choices), Scope::Dialogue(c, _)) => if c < choices.len() {
            match choices[c as int].kind {
                ChoiceKindModel::Inline(steps, _) => Some(steps),
                ChoiceKindModel::External(_) => None,
            }
        } else {
            None
        },
        (StepModel::Conditional(_, then_steps, _, _), Scope::If(_)) => Some(then_steps),
        (StepModel::Conditional(_, _, else_ifs, _), Scope::ElseIf(b, _)) => if b < else_ifs.len() {
            Some(else_ifs[b as int].1)
        } else {
            None
        },
        (StepModel::Conditional(_, _, _, else_steps), Scope::Else(_)) => Some(else_steps),
        _ => None,
    }
}

/// The step reached from position `at` of `steps` by descending through
/// `path`, outermost scope first. `None` where a position lies past the end
/// of its steps or a scope does not fit the step it starts from.
pub open spec fn resolve(steps: Seq<StepModel>, at: nat, path: Seq<Scope>) -> Option<StepModel>
    decreases path.len(),
{
    if at >= steps.len() {
        None
    } else if path.len() == 0 {
        Some(steps[at as int])
    } else {
        match enter(steps[at as int], path[0]) {
            Some(inner) => resolve(inner, path[0].inner(), path.drop_first()),
            None => None,
        }
    }
}

/// The steps that `index` leads into from `step`.
pub fn enter_scope<'a>(step: &'a Step, index: StepIndex) -> (r: Option<&'a Vec<Step>>)
    ensures
        r is Some <==> enter(step@, index@) is Some,
        r matches Some(steps) ==> enter(step@, index@) == Some(step_models(steps@)),
{
    proof {
        reveal_with_fuel(step_model, 3);
    }
    match step {
        Step::Dialogue(_, choices) => {
            match index {
                StepIndex::Dialogue(c, _) => {
                    if c < choices.len() {
                        assert(choice_models(choices@)[c as int] == choice_model(choices@[c as int]));
                        match &choices[c].kind {
                            ChoiceKind::Inline(steps, _) => Some(steps),
                            ChoiceKind::External(_) => None,
                        }
                    } else {
                        None
                    }
                },
                _ => None,
            }
        },
        Step::Conditional(_, then_steps, else_ifs, else_steps) => {
            match index {
                StepIndex::If(_) => Some(then_steps),
                StepIndex::ElseIf(b, _) => {
                    if b < else_ifs.len() {
                        assert(branch_models(else_ifs@)[b as int].1 == step_models(
                            else_ifs@[b as int].1@,
                        ));
                        Some(&else_ifs[b].1)
                    } else {
                        None
                    }
                },
                StepIndex::Else(_) => Some(else_steps),
                StepIndex::Dialogue(_, _) => None,
            }
        },
        _ => None,
    }
}

/// The step that the conversation stands at inside `steps`, the top-level
/// steps of its node.
pub fn resolve_step<'a>(steps: &'a Vec<Step>, conversation: &Conversation) -> (r: Option<&'a Step>)
    ensures
        r is Some <==> resolve(
            step_models(steps@),
            conversation@.base_index,
            conversation@.indexes,
        ) is Some,
        r matches Some(step) ==> resolve(
            step_models(steps@),
            conversation@.base_index,
            conversation@.indexes,
        ) == Some(step@),
        r is Some ==> conversation@.position() < usize::MAX,
{
    let ghost path = conversation@.indexes;
    let ghost goal = resolve(step_models(steps@), conversation@.base_index, path);
    let mut current: &Vec<Step> = steps;
    let mut at: usize = conversation.base_index;
    let mut i: usize = 0;
    assert(path.skip(0) =~= path);
    while i < conversation.indexes.len()
        invariant
            i <= conversation.indexes.len(),
            path == conversation@.indexes,
            path.len() == conversation.indexes.len(),
            goal == resolve(step_models(steps@), conversation@.base_index, path),
            goal == resolve(step_models(current@), at as nat, path.skip(i as int)),
            i == 0 ==> at == conversation.base_index,
            i > 0 ==> at as nat == path[i as int - 1].inner(),
        decreases conversation.indexes.len() - i,
    {
        if at >= current.len() {
            return None;
        }
        let index = conversation.indexes[i];
        proof {
            let rest = path.skip(i as int);
            assert(rest[0] == index@);
            assert(rest.drop_first() =~= path.skip(i as int + 1));
            assert(step_models(current@)[at as int] == current@[at as int]@);
        }
        match enter_scope(&current[at], index) {
            Some(inner) => {
                current = inner;
                at = match index {
                    StepIndex::Dialogue(_, p) => p,
                    StepIndex::If(p) => p,
                    StepIndex::ElseIf(_, p) => p,
                    StepIndex::Else(p) => p,
                };
            },
            None => {
                return None;
            },
        }
        i += 1;
    }
    assert(path.skip(i as int).len() == 0);
    if at < current.len() {
        assert(step_models(current@)[at as int] == current@[at as int]@);
        Some(&current[at])
    } else {
        None
    }
}

} // verus!
