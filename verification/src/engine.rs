//! The conversation engine: a state machine that walks the steps of the
//! active node and hands the host one event at a time.

use vstd::prelude::*;
use crate::ast::{
    Choice, ChoiceKind, ChoiceKindModel, ChoiceModel, Expr, ExprModel, NodeName, Step, StepModel,
    VariableName, branch_models, choice_model, choice_models, step_model,
};
use crate::conversation::{Conversation, ConversationModel, Scope, StepIndex, resolve, resolve_step};
use crate::eval::{
    Answer, AnswerModel, EngineState, Env, EvalError, Outcome, OutcomeModel, Request, RequestModel,
    Variables, answer_models, eval, signatures,
};
use crate::host::{Function, HostFunction, Signature};
use crate::node::{Node, NodeModel, Nodes, node_models, visit};
use crate::parse::{ParseError, parse_nodes, parse_nodes_from_string, reversed};
use crate::table::Table;
use crate::value::{Value, ValueModel};

verus! {

/// An event for the host.
#[derive(Debug, PartialEq, Eq)]
pub enum YarnEntry {
    /// Present a line of dialogue without any choices.
    Say(String),
    /// Present a line of dialogue with subsequent choices. Execution will
    /// not resume until `YarnEngine::choose_option` is invoked.
    Choose { text: String, choices: Vec<String> },
    /// Instruct the embedder to perform some kind of action. The given
    /// action string is passed unmodified from the node source.
    Command { action: String },
    /// End the current conversation. Execution will not resume until a new
    /// node is made active with `YarnEngine::activate`.
    EndConversation,
}

pub ghost enum EntryModel {
    Say(Seq<char>),
    Choose { text: Seq<char>, choices: Seq<Seq<char>> },
    Command { action: Seq<char> },
    EndConversation,
}

/// The views of a list of strings.
pub open spec fn texts(strings: Seq<String>) -> Seq<Seq<char>> {
    Seq::new(strings.len(), |i: int| strings[i]@)
}

impl View for YarnEntry {
    type V = EntryModel;

    open spec fn view(&self) -> EntryModel {
        match self {
            YarnEntry::Say(text) => EntryModel::Say(text@),
            YarnEntry::Choose { text, choices } => EntryModel::Choose {
                text: text@,
                choices: texts(choices@),
            },
            YarnEntry::Command { action } => EntryModel::Command { action: action@ },
            YarnEntry::EndConversation => EntryModel::EndConversation,
        }
    }
}

/// What one pull at the engine produced.
#[derive(Debug)]
pub enum Pull {
    /// An event for the host.
    Entry(YarnEntry),
    /// A step without an event was taken, or an answer was recorded: pull
    /// again.
    Continue,
    /// The current step cannot go on before the host has done this work
    /// and handed the result to `YarnEngine::supply`.
    Need(Request),
    /// An expression of the current step has no value.
    Failed(EvalError),
    /// No conversation is active, or the active one has ended.
    Idle,
}

pub ghost enum PullModel {
    Entry(EntryModel),
    Continue,
    Need(RequestModel),
    Failed(EvalError),
    Idle,
}

impl View for Pull {
    type V = PullModel;

    open spec fn view(&self) -> PullModel {
        match self {
            Pull::Entry(e) => PullModel::Entry(e@),
            Pull::Continue => PullModel::Continue,
            Pull::Need(r) => PullModel::Need(r@),
            Pull::Failed(e) => PullModel::Failed(*e),
            Pull::Idle => PullModel::Idle,
        }
    }
}

/// Why a choice was not taken.
#[derive(Clone, Copy, Debug, PartialEq, Eq, Structural)]
pub enum ChoiceError {
    /// No conversation is active.
    NoConversation,
    /// The conversation stands at no step.
    NoCurrentStep,
    /// The current step is not a dialogue with choices.
    NotAChoice,
    /// The dialogue has no choice of that index.
    OutOfRange,
}

/// Which branch of a conditional is entered, or why none could be chosen
/// yet.
#[derive(Debug)]
pub enum Selection {
    Taken(StepIndex),
    Failed(EvalError),
    Need(Request),
}

pub ghost enum SelectionModel {
    Taken(Scope),
    Failed(EvalError),
    Need(RequestModel),
}

impl View for Selection {
    type V = SelectionModel;

    open spec fn view(&self) -> SelectionModel {
        match self {
            Selection::Taken(index) => SelectionModel::Taken(index@),
            Selection::Failed(e) => SelectionModel::Failed(*e),
            Selection::Need(r) => SelectionModel::Need(r@),
        }
    }
}

/// The branch chosen among the else-if branches from `i` on, whose
/// conditions are evaluated in order with the answers from `at` on: the
/// first whose condition is truthy, else the else branch.
pub open spec fn select_else_if(
    else_ifs: Seq<(ExprModel, Seq<StepModel>)>,
    i: nat,
    env: Env,
    answers: Seq<AnswerModel>,
    at: nat,
) -> SelectionModel
    decreases else_ifs.len() - i,
{
    if i >= else_ifs.len() {
        SelectionModel::Taken(Scope::Else(0))
    } else {
        let (o, at1) = eval(else_ifs[i as int].0, env, answers, at);
        match o {
            OutcomeModel::Value(v) => if v.truthy() {
                SelectionModel::Taken(Scope::ElseIf(i, 0))
            } else {
                select_else_if(else_ifs, i + 1, env, answers, at1)
            },
            OutcomeModel::Failed(e) => SelectionModel::Failed(e),
            OutcomeModel::Need(r) => SelectionModel::Need(r),
        }
    }
}

/// The branch of a conditional that is entered: the first branch when the
/// primary condition is truthy, else the first else-if branch with a truthy
/// condition, else the else branch. Exactly one branch is chosen, and no
/// condition after the first truthy one is evaluated.
pub open spec fn select(
    cond: ExprModel,
    else_ifs: Seq<(ExprModel, Seq<StepModel>)>,
    env: Env,
    answers: Seq<AnswerModel>,
) -> SelectionModel {
    let (o, at) = eval(cond, env, answers, 0);
    match o {
        OutcomeModel::Value(v) => if v.truthy() {
            SelectionModel::Taken(Scope::If(0))
        } else {
            select_else_if(else_ifs, 0, env, answers, at)
        },
        OutcomeModel::Failed(e) => SelectionModel::Failed(e),
        OutcomeModel::Need(r) => SelectionModel::Need(r),
    }
}

/// The texts of a list of choices, in order.
pub open spec fn choice_texts(choices: Seq<ChoiceModel>) -> Seq<Seq<char>> {
    Seq::new(choices.len(), |i: int| choices[i].text)
}

/// For each node whether it was visited.
pub open spec fn visited_flags(nodes: Map<Seq<char>, NodeModel>) -> Map<Seq<char>, bool> {
    Map::new(|k: Seq<char>| nodes.contains_key(k), |k: Seq<char>| nodes[k].visited)
}

/// The nodes after adding each of `added` in order under its title, a later
/// node replacing an earlier one of the same title.
pub open spec fn merged(nodes: Map<Seq<char>, NodeModel>, added: Seq<NodeModel>) -> Map<
    Seq<char>,
    NodeModel,
>
    decreases added.len(),
{
    if added.len() == 0 {
        nodes
    } else {
        merged(nodes, added.drop_last()).insert(added.last().title, added.last())
    }
}

/// Everything the engine holds.
pub ghost struct EngineModel {
    pub nodes: Map<Seq<char>, NodeModel>,
    pub variables: Map<Seq<char>, ValueModel>,
    pub functions: Map<Seq<char>, Signature>,
    pub conversation: Option<ConversationModel>,
    /// The active conversation has reported its end.
    pub ended: bool,
    /// The answers given for the step the conversation stands at.
    pub pending: Seq<AnswerModel>,
}

impl EngineModel {
    /// The environment in which the expressions of a step are evaluated.
    pub open spec fn env(self) -> Env {
        Env {
            variables: self.variables,
            functions: self.functions,
            visited: visited_flags(self.nodes),
        }
    }

    /// The step the conversation stands at. There is none without a
    /// conversation, when the active node does not exist, or when the
    /// position resolves to no step.
    pub open spec fn current(self) -> Option<StepModel> {
        match self.conversation {
            None => None,
            Some(c) => if self.nodes.contains_key(c.node) {
                resolve(self.nodes[c.node].steps, c.base_index, c.indexes)
            } else {
                None
            },
        }
    }

    /// The engine after `node` became the conversation's target: a fresh
    /// conversation at its first top-level step, every scope entered before
    /// forgotten, and the node marked as visited.
    pub open spec fn moved_to(self, node: Seq<char>) -> EngineModel {
        EngineModel {
            nodes: visit(self.nodes, node),
            conversation: Some(ConversationModel::fresh(node)),
            pending: Seq::empty(),
            ..self
        }
    }

    /// The engine after `activate`.
    pub open spec fn activated(self, node: Seq<char>) -> EngineModel {
        EngineModel { ended: false, ..self.moved_to(node) }
    }

    /// The engine with its position moved on by one.
    pub open spec fn advanced(self) -> EngineModel {
        EngineModel {
            conversation: match self.conversation {
                Some(c) => Some(c.advanced()),
                None => None,
            },
            pending: Seq::empty(),
            ..self
        }
    }

    /// The engine after entering `scope` below the current step.
    pub open spec fn entered(self, scope: Scope) -> EngineModel {
        EngineModel {
            conversation: match self.conversation {
                Some(c) => Some(c.entered(scope)),
                None => None,
            },
            pending: Seq::empty(),
            ..self
        }
    }

    /// The engine with one more answer recorded.
    pub open spec fn supplied(self, answer: AnswerModel) -> EngineModel {
        EngineModel { pending: self.pending.push(answer), ..self }
    }

    /// The engine after `set_variable`.
    pub open spec fn assigned(self, name: Seq<char>, value: ValueModel) -> EngineModel {
        EngineModel {
            variables: self.variables.insert(name, value),
            pending: Seq::empty(),
            ..self
        }
    }

    /// The engine after `register_function`.
    pub open spec fn registered(self, name: Seq<char>, arity: nat) -> EngineModel {
        EngineModel {
            functions: self.functions.insert(name, Signature { arity, builtin: false }),
            pending: Seq::empty(),
            ..self
        }
    }

    /// The engine after a successful load of `added`.
    pub open spec fn loaded(self, added: Seq<NodeModel>) -> EngineModel {
        EngineModel { nodes: merged(self.nodes, added), pending: Seq::empty(), ..self }
    }

    /// What `choose_option` does: the error, or the engine after the choice.
    ///
    /// An external choice moves the conversation to its target node; an
    /// inline choice enters the steps of the choice at their first
    /// position.
    pub open spec fn chosen(self, choice: nat) -> Result<EngineModel, ChoiceError> {
        if self.conversation is None {
            Err(ChoiceError::NoConversation)
        } else {
            match self.current() {
                None => Err(ChoiceError::NoCurrentStep),
                Some(StepModel::Dialogue(_, choices)) => if choices.len() == 0 {
                    Err(ChoiceError::NotAChoice)
                } else if choice >= choices.len() {
                    Err(ChoiceError::OutOfRange)
                } else {
                    match choices[choice as int].kind {
                        ChoiceKindModel::External(target) => Ok(self.moved_to(target)),
                        ChoiceKindModel::Inline(_, _) => Ok(
                            self.entered(Scope::Dialogue(choice, 0)),
                        ),
                    }
                },
                Some(_) => Err(ChoiceError::NotAChoice),
            }
        }
    }

    /// What one pull does: the engine afterwards and what the pull hands
    /// out.
    ///
    /// Without a conversation, or after its end was reported, nothing
    /// happens. Where the conversation stands at no step, its end is
    /// reported. A dialogue without choices and a command are handed out
    /// and the position moves on; a dialogue with choices is handed out and
    /// nothing moves. An assignment, a jump and a conditional change the
    /// engine and hand out `Continue`. Where an expression still needs work
    /// of the host, the request is handed out and nothing changes; where it
    /// has no value, the error is handed out and the answers given for the
    /// step are dropped.
    pub open spec fn stepped(self) -> (EngineModel, PullModel) {
        if self.conversation is None || self.ended {
            (self, PullModel::Idle)
        } else {
            match self.current() {
                None => (
                    EngineModel { ended: true, pending: Seq::empty(), ..self },
                    PullModel::Entry(EntryModel::EndConversation),
                ),
                Some(StepModel::Dialogue(text, choices)) => if choices.len() == 0 {
                    (self.advanced(), PullModel::Entry(EntryModel::Say(text)))
                } else {
                    (
                        EngineModel { pending: Seq::empty(), ..self },
                        PullModel::Entry(
                            EntryModel::Choose { text, choices: choice_texts(choices) },
                        ),
                    )
                },
                Some(StepModel::Command(text)) => (
                    self.advanced(),
                    PullModel::Entry(EntryModel::Command { action: text }),
                ),
                Some(StepModel::Assign(name, e)) => match eval(e, self.env(), self.pending, 0).0 {
                    OutcomeModel::Value(v) => (
                        EngineModel {
                            variables: self.variables.insert(name, v),
                            ..self.advanced()
                        },
                        PullModel::Continue,
                    ),
                    OutcomeModel::Failed(e) => (
                        EngineModel { pending: Seq::empty(), ..self },
                        PullModel::Failed(e),
                    ),
                    OutcomeModel::Need(r) => (self, PullModel::Need(r)),
                },
                Some(StepModel::Jump(name)) => (self.moved_to(name), PullModel::Continue),
                Some(StepModel::Conditional(cond, _, else_ifs, _)) => match select(
                    cond,
                    else_ifs,
                    self.env(),
                    self.pending,
                ) {
                    SelectionModel::Taken(scope) => (self.entered(scope), PullModel::Continue),
                    SelectionModel::Failed(e) => (
                        EngineModel { pending: Seq::empty(), ..self },
                        PullModel::Failed(e),
                    ),
                    SelectionModel::Need(r) => (self, PullModel::Need(r)),
                },
            }
        }
    }
}

/// Chooses the branch of a conditional.
pub fn select_branch(
    state: &EngineState,
    cond: &Expr,
    else_ifs: &Vec<(Expr, Vec<Step>)>,
    nodes: &Nodes,
    answers: &Vec<Answer>,
) -> (r: Selection)
    requires
        state.wf(),
        nodes.wf(),
    ensures
        r@ == select(cond@, branch_models(else_ifs@), state.env(nodes), answer_models(answers@)),
{
    let ghost env = state.env(nodes);
    let ghost given = answer_models(answers@);
    let ghost models = branch_models(else_ifs@);
    let (o, at) = state.eval_at(cond, nodes, answers, 0);
    match o {
        Outcome::Value(v) => {
            if v.as_bool() {
                return Selection::Taken(StepIndex::If(0));
            }
        },
        Outcome::Failed(e) => {
            return Selection::Failed(e);
        },
        Outcome::Need(r) => {
            return Selection::Need(r);
        },
    }
    let mut next: usize = at;
    let mut i: usize = 0;
    while i < else_ifs.len()
        invariant
            state.wf(),
            nodes.wf(),
            env == state.env(nodes),
            given == answer_models(answers@),
            models == branch_models(else_ifs@),
            i <= else_ifs.len(),
            next <= answers.len(),
            select(cond@, models, env, given) == select_else_if(
                models,
                i as nat,
                env,
                given,
                next as nat,
            ),
        decreases else_ifs.len() - i,
    {
        assert(models[i as int].0 == else_ifs@[i as int].0@);
        let (o, after) = state.eval_at(&else_ifs[i].0, nodes, answers, next);
        match o {
            Outcome::Value(v) => {
                if v.as_bool() {
                    return Selection::Taken(StepIndex::ElseIf(i, 0));
                }
                next = after;
            },
            Outcome::Failed(e) => {
                return Selection::Failed(e);
            },
            Outcome::Need(r) => {
                return Selection::Need(r);
            },
        }
        i += 1;
    }
    Selection::Taken(StepIndex::Else(0))
}

/// The texts of the choices, in order.
pub fn texts_of(choices: &Vec<Choice>) -> (r: Vec<String>)
    ensures
        texts(r@) == choice_texts(choice_models(choices@)),
{
    let mut out: Vec<String> = Vec::new();
    let mut i: usize = 0;
    while i < choices.len()
        invariant
            i <= choices.len(),
            out@.len() == i,
            forall|j: int| 0 <= j < i ==> (#[trigger] out@[j])@ == choices@[j].text@,
        decreases choices.len() - i,
    {
        out.push(choices[i].text.clone());
        i += 1;
    }
    proof {
        assert forall|j: int| 0 <= j < choices@.len() implies choice_models(choices@)[j].text
            == choices@[j].text@ by {
            assert(choice_models(choices@)[j] == choice_model(choices@[j]));
        }
        assert(texts(out@) =~= choice_texts(choice_models(choices@)));
    }
    out
}

/// The nodes and the position of the conversation in them.
pub struct NodeState {
    pub nodes: Nodes,
    pub conversation: Option<Conversation>,
}

impl NodeState {
    pub open spec fn wf(&self) -> bool {
        self.nodes.wf()
    }

    /// The conversation, if one is active.
    pub open spec fn conversation_model(&self) -> Option<ConversationModel> {
        match self.conversation {
            Some(c) => Some(c@),
            None => None,
        }
    }

    /// The step the conversation stands at.
    pub open spec fn current(&self) -> Option<StepModel> {
        match self.conversation {
            None => None,
            Some(c) => if self.nodes.model().contains_key(c.node@) {
                resolve(self.nodes.model()[c.node@].steps, c@.base_index, c@.indexes)
            } else {
                None
            },
        }
    }

    /// Starts a conversation at the first step of the given node and marks
    /// the node as visited, or ends the conversation for `None`.
    pub fn set_conversation(&mut self, conversation: Option<NodeName>)
        requires
            old(self).wf(),
        ensures
            final(self).wf(),
            conversation matches Some(name) ==> final(self).conversation_model() == Some(
                ConversationModel::fresh(name@),
            ) && final(self).nodes.model() == visit(old(self).nodes.model(), name@),
            conversation is None ==> final(self).conversation is None && final(self).nodes.model()
                == old(self).nodes.model(),
    {
        match conversation {
            Some(name) => {
                self.nodes.mark_visited(&name);
                self.conversation = Some(Conversation::new(name));
            },
            None => {
                self.conversation = None;
            },
        }
    }

    /// Enters a scope below the current step.
    pub fn push_step(&mut self, index: StepIndex)
        requires
            old(self).conversation is Some,
        ensures
            final(self).nodes == old(self).nodes,
            final(self).conversation_model() == Some(
                old(self).conversation_model()->0.entered(index@),
            ),
    {
        match &mut self.conversation {
            Some(c) => {
                c.push(index);
            },
            None => {},
        }
    }

    /// Moves the innermost position on by one.
    pub fn advance(&mut self)
        requires
            old(self).conversation is Some,
            old(self).conversation_model()->0.position() < usize::MAX,
        ensures
            final(self).nodes == old(self).nodes,
            final(self).conversation_model() == Some(old(self).conversation_model()->0.advanced()),
    {
        match &mut self.conversation {
            Some(c) => {
                c.advance();
            },
            None => {},
        }
    }

    /// The step the conversation stands at, if it stands at one.
    pub fn get_current_step(&self) -> (r: Option<&Step>)
        requires
            self.wf(),
            self.conversation is Some,
        ensures
            r is Some <==> self.current() is Some,
            r matches Some(step) ==> self.current() == Some(step@),
            r is Some ==> self.conversation_model()->0.position() < usize::MAX,
    {
        match &self.conversation {
            Some(conversation) => {
                match self.nodes.get(&conversation.node) {
                    Some(node) => resolve_step(&node.steps, conversation),
                    None => None,
                }
            },
            None => None,
        }
    }
}

/// The engine that stores all conversation-related state.
pub struct YarnEngine {
    state: NodeState,
    engine_state: EngineState,
    conversion_ended: bool,
    pending: Vec<Answer>,
}

/// The name under which the built-in `visited` is registered.
pub open spec fn visited_name() -> Seq<char> {
    seq!['v', 'i', 's', 'i', 't', 'e', 'd']
}

impl EngineModel {
    /// A new engine: no nodes, no variables, no conversation, and the
    /// built-in `visited` as the only function.
    pub open spec fn initial() -> EngineModel {
        EngineModel {
            nodes: Map::empty(),
            variables: Map::empty(),
            functions: Map::empty().insert(visited_name(), Signature { arity: 1, builtin: true }),
            conversation: None,
            ended: false,
            pending: Seq::empty(),
        }
    }
}

impl View for YarnEngine {
    type V = EngineModel;

    closed spec fn view(&self) -> EngineModel {
        EngineModel {
            nodes: self.state.nodes.model(),
            variables: self.engine_state.variables.model(),
            functions: signatures(self.engine_state.functions),
            conversation: self.state.conversation_model(),
            ended: self.conversion_ended,
            pending: answer_models(self.pending@),
        }
    }
}

impl YarnEngine {
    /// The engine's tables are well formed. It holds of every engine that
    /// `new` made, whatever was done with it since.
    pub closed spec fn wf(&self) -> bool {
        &&& self.state.wf()
        &&& self.engine_state.wf()
    }

    proof fn lemma_env(&self)
        ensures
            self.engine_state.env(&self.state.nodes) == self@.env(),
            self.state.current() == self@.current(),
    {
        assert(self.state.nodes.visited() =~= visited_flags(self.state.nodes.model()));
    }

    /// Create a new YarnEngine instance.
    pub fn new() -> (engine: YarnEngine)
        ensures
            engine.wf(),
            engine@ == EngineModel::initial(),
    {
        let mut functions: Table<Function> = Table::new();
        proof {
            reveal_strlit("visited");
        }
        let name = "visited".to_owned();
        assert(name@ =~= visited_name());
        functions.insert(name, Function::visited());
        let engine = YarnEngine {
            state: NodeState { nodes: Nodes::new(), conversation: None },
            engine_state: EngineState { variables: Variables::new(), functions },
            conversion_ended: false,
            pending: Vec::new(),
        };
        proof {
            assert(signatures(functions) =~= Map::empty().insert(
                visited_name(),
                Signature { arity: 1, builtin: true },
            )) by {
                assert forall|k: Seq<char>| functions.has(k) == functions.map().contains_key(k) by {}
            }
            assert(engine@.pending =~= Seq::<AnswerModel>::empty());
        }
        engine
    }

    /// Adds `nodes` to the node storage in order, each under its title and
    /// in place of a node of that title held before.
    pub fn add_nodes(&mut self, nodes: Vec<Node>)
        requires
            old(self).wf(),
        ensures
            final(self).wf(),
            final(self)@ == old(self)@.loaded(node_models(nodes@)),
    {
        let ghost added = node_models(nodes@);
        let ghost total = nodes@;
        let mut stack = reversed(nodes);
        let ghost before = self.state.nodes.model();
        let ghost mut done: int = 0;
        assert(added.take(0) =~= Seq::<NodeModel>::empty());
        while stack.len() > 0
            invariant
                self.state.wf(),
                added == node_models(total),
                done + stack@.len() == total.len(),
                forall|j: int|
                    0 <= j < stack@.len() ==> stack@[j] == total[total.len() - 1 - j],
                0 <= done,
                self.state.nodes.model() == merged(before, added.take(done)),
                self.state.conversation == old(self).state.conversation,
                self.engine_state == old(self).engine_state,
                self.conversion_ended == old(self).conversion_ended,
            decreases stack@.len(),
        {
            let node = stack.pop().unwrap();
            proof {
                let upto = added.take(done + 1);
                assert(upto.drop_last() =~= added.take(done));
                assert(upto.last() == node@);
            }
            self.state.nodes.insert(node);
            proof {
                done = done + 1;
            }
        }
        self.pending = Vec::new();
        proof {
            assert(added.take(done) =~= added);
            assert(self@.pending =~= Seq::<AnswerModel>::empty());
        }
    }

    /// Parse the provided string as a series of nodes, appending the
    /// results to the internal node storage. A malformed script changes
    /// nothing.
    pub fn load_from_string(&mut self, s: &str) -> (r: Result<(), ParseError>)
        requires
            old(self).wf(),
        ensures
            final(self).wf(),
            match parse_nodes(s@) {
                Some(added) => r is Ok && final(self)@ == old(self)@.loaded(added),
                None => r is Err && final(self)@ == old(self)@,
            },
    {
        match parse_nodes_from_string(s) {
            Ok(nodes) => {
                self.add_nodes(nodes);
                Ok(())
            },
            Err(e) => Err(e),
        }
    }

    /// Register a native function for use in expressions, in place of a
    /// function registered under that name before. The function is bound
    /// to the calling thread.
    ///
    /// The function that is replaced is dropped here. A host function must
    /// be dropped on the thread that registered it: replacing one from
    /// another thread panics, as does dropping the engine there.
    pub fn register_function(
        &mut self,
        name: String,
        num_args: usize,
        callback: Box<dyn HostFunction>,
    )
        requires
            old(self).wf(),
        ensures
            final(self).wf(),
            final(self)@ == old(self)@.registered(name@, num_args as nat),
    {
        let ghost before = self.engine_state.functions;
        let f = Function::host(num_args, callback);
        self.engine_state.functions.insert(name, f);
        self.pending = Vec::new();
        proof {
            assert(signatures(self.engine_state.functions) =~= signatures(before).insert(
                name@,
                Signature { arity: num_args as nat, builtin: false },
            ));
            assert(self@.pending =~= Seq::<AnswerModel>::empty());
        }
    }

    /// Set a given variable to the provided value. Any expressions
    /// evaluated after this call will observe the new value when using the
    /// variable.
    pub fn set_variable(&mut self, name: VariableName, value: Value)
        requires
            old(self).wf(),
        ensures
            final(self).wf(),
            final(self)@ == old(self)@.assigned(name@, value@),
    {
        self.engine_state.variables.set(name, value);
        self.pending = Vec::new();
        assert(self@.pending =~= Seq::<AnswerModel>::empty());
    }

    /// Begin evaluating the provided node.
    pub fn activate(&mut self, node: NodeName)
        requires
            old(self).wf(),
        ensures
            final(self).wf(),
            final(self)@ == old(self)@.activated(node@),
    {
        self.state.set_conversation(Some(node));
        self.conversion_ended = false;
        self.pending = Vec::new();
        assert(self@.pending =~= Seq::<AnswerModel>::empty());
    }

    /// Hands the engine the host's answer to the request of the last pull.
    pub fn supply(&mut self, answer: Answer)
        requires
            old(self).wf(),
        ensures
            final(self).wf(),
            final(self)@ == old(self)@.supplied(answer@),
    {
        self.pending.push(answer);
        assert(self@.pending =~= old(self)@.pending.push(answer@));
    }

    /// Make a choice between a series of options for the current node's
    /// active step. On an error nothing changes.
    pub fn choose_option(&mut self, choice: usize) -> (r: Result<(), ChoiceError>)
        requires
            old(self).wf(),
        ensures
            final(self).wf(),
            match old(self)@.chosen(choice as nat) {
                Ok(after) => r is Ok && final(self)@ == after,
                Err(e) => r == Err::<(), ChoiceError>(e) && final(self)@ == old(self)@,
            },
    {
        proof {
            self.lemma_env();
            reveal_with_fuel(step_model, 3);
        }
        if self.state.conversation.is_none() {
            return Err(ChoiceError::NoConversation);
        }
        let target: Option<NodeName> = match self.state.get_current_step() {
            None => {
                return Err(ChoiceError::NoCurrentStep);
            },
            Some(Step::Dialogue(_, choices)) => {
                if choices.len() == 0 {
                    return Err(ChoiceError::NotAChoice);
                }
                if choice >= choices.len() {
                    return Err(ChoiceError::OutOfRange);
                }
                assert(choice_models(choices@)[choice as int] == choice_model(
                    choices@[choice as int],
                ));
                match &choices[choice].kind {
                    ChoiceKind::External(node) => Some(node.clone()),
                    ChoiceKind::Inline(_, _) => None,
                }
            },
            Some(_) => {
                return Err(ChoiceError::NotAChoice);
            },
        };
        match target {
            Some(node) => {
                self.state.set_conversation(Some(node));
            },
            None => {
                self.state.push_step(StepIndex::Dialogue(choice, 0));
            },
        }
        self.pending = Vec::new();
        assert(self@.pending =~= Seq::<AnswerModel>::empty());
        Ok(())
    }

    /// Takes one step of the conversation without calling the host.
    pub fn step(&mut self) -> (r: Pull)
        requires
            old(self).wf(),
        ensures
            final(self).wf(),
            final(self)@ == old(self)@.stepped().0,
            r@ == old(self)@.stepped().1,
    {
        proof {
            self.lemma_env();
            reveal_with_fuel(step_model, 3);
        }
        if self.state.conversation.is_none() || self.conversion_ended {
            return Pull::Idle;
        }
        match self.state.get_current_step() {
            None => {
                self.conversion_ended = true;
                self.pending = Vec::new();
                assert(self@.pending =~= Seq::<AnswerModel>::empty());
                Pull::Entry(YarnEntry::EndConversation)
            },
            Some(Step::Dialogue(text, choices)) => {
                if choices.len() == 0 {
                    let text = text.clone();
                    self.state.advance();
                    self.pending = Vec::new();
                    assert(self@.pending =~= Seq::<AnswerModel>::empty());
                    Pull::Entry(YarnEntry::Say(text))
                } else {
                    let entry = YarnEntry::Choose { text: text.clone(), choices: texts_of(choices) };
                    self.pending = Vec::new();
                    assert(self@.pending =~= Seq::<AnswerModel>::empty());
                    Pull::Entry(entry)
                }
            },
            Some(Step::Command(command)) => {
                let command = command.clone();
                self.state.advance();
                self.pending = Vec::new();
                assert(self@.pending =~= Seq::<AnswerModel>::empty());
                Pull::Entry(YarnEntry::Command { action: command })
            },
            Some(Step::Assign(name, expr)) => {
                match self.engine_state.evaluate(expr, &self.state.nodes, &self.pending) {
                    Outcome::Value(value) => {
                        let name = name.clone();
                        self.engine_state.variables.set(name, value);
                        self.state.advance();
                        self.pending = Vec::new();
                        assert(self@.pending =~= Seq::<AnswerModel>::empty());
                        Pull::Continue
                    },
                    Outcome::Failed(e) => {
                        self.pending = Vec::new();
                        assert(self@.pending =~= Seq::<AnswerModel>::empty());
                        Pull::Failed(e)
                    },
                    Outcome::Need(request) => Pull::Need(request),
                }
            },
            Some(Step::Jump(name)) => {
                let name = name.clone();
                self.state.set_conversation(Some(name));
                self.pending = Vec::new();
                assert(self@.pending =~= Seq::<AnswerModel>::empty());
                Pull::Continue
            },
            Some(Step::Conditional(expr, _, else_ifs, _)) => {
                match select_branch(
                    &self.engine_state,
                    expr,
                    else_ifs,
                    &self.state.nodes,
                    &self.pending,
                ) {
                    Selection::Taken(index) => {
                        self.state.push_step(index);
                        self.pending = Vec::new();
                        assert(self@.pending =~= Seq::<AnswerModel>::empty());
                        Pull::Continue
                    },
                    Selection::Failed(e) => {
                        self.pending = Vec::new();
                        assert(self@.pending =~= Seq::<AnswerModel>::empty());
                        Pull::Failed(e)
                    },
                    Selection::Need(request) => Pull::Need(request),
                }
            },
        }
    }

    /// Takes one step of the conversation. Where the step asks for a call
    /// of a host function, the call is made here and its result recorded as
    /// the answer, whatever it is; every other outcome is that of `step`.
    pub fn next(&mut self) -> (r: Pull)
        requires
            old(self).wf(),
        ensures
            final(self).wf(),
            match old(self)@.stepped().1 {
                PullModel::Need(RequestModel::Call(_, _)) => r@ == PullModel::Continue && exists|
                    result: Option<ValueModel>,
                |
                    final(self)@ == old(self)@.supplied(AnswerModel::Returned(result)),
                other => r@ == other && final(self)@ == old(self)@.stepped().0,
            },
    {
        match self.step() {
            Pull::Need(Request::Call(name, args)) => {
                let result = match self.engine_state.functions.get(&name) {
                    Some(f) => f.call_host(args, &self.state.nodes),
                    None => Err(()),
                };
                let answer = Answer::Returned(result);
                let ghost recorded = answer@;
                self.supply(answer);
                assert(self@ == old(self)@.supplied(AnswerModel::Returned(recorded->Returned_0)));
                Pull::Continue
            },
            other => other,
        }
    }
}

} // verus!
