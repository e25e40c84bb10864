use std::cell::Cell;
use std::rc::Rc;

use yarn::ast::{Choice, Step};
use yarn::table::Table;
use yarn::{
    Answer, ArithOp, ChoiceError, EvalError, HostFunction, Node, NodeName, Nodes, Number, Pull,
    Request, Value, VariableName, YarnEngine, YarnEntry,
};

fn number(x: f32) -> Number {
    Number::from_bits(x.to_bits())
}

fn float(n: Number) -> f32 {
    f32::from_bits(n.to_bits())
}

fn answer(request: Request) -> Answer {
    match request {
        Request::Parse(text) => Answer::Number(number(text.parse::<f32>().unwrap())),
        Request::Format(n) => Answer::Text(float(n).to_string()),
        Request::Arith(op, a, b) => {
            let (x, y) = (float(a), float(b));
            Answer::Number(number(match op {
                ArithOp::Add => x + y,
                ArithOp::Subtract => x - y,
                ArithOp::Multiply => x * y,
                ArithOp::Divide => x / y,
            }))
        }
        Request::Call(name, _) => panic!("call of {} left to the host", name),
    }
}

fn pull_or_error(engine: &mut YarnEngine) -> Result<Option<YarnEntry>, EvalError> {
    loop {
        match engine.next() {
            Pull::Entry(entry) => return Ok(Some(entry)),
            Pull::Idle => return Ok(None),
            Pull::Continue => {}
            Pull::Need(request) => engine.supply(answer(request)),
            Pull::Failed(e) => return Err(e),
        }
    }
}

fn pull(engine: &mut YarnEngine) -> Option<YarnEntry> {
    pull_or_error(engine).unwrap()
}

fn engine_with(script: &str) -> YarnEngine {
    let mut engine = YarnEngine::new();
    engine.load_from_string(script).unwrap();
    engine
}

fn name(s: &str) -> NodeName {
    NodeName(s.to_string())
}

fn say(s: &str) -> Option<YarnEntry> {
    Some(YarnEntry::Say(s.to_string()))
}

#[test]
fn minimal_node_says_its_line_then_ends() {
    let mut engine = engine_with("title: Start\n---\nHello there, friend!\n===\n");
    engine.activate(name("Start"));
    assert_eq!(pull(&mut engine), say("Hello there, friend!"));
    assert_eq!(pull(&mut engine), Some(YarnEntry::EndConversation));
    assert_eq!(pull(&mut engine), None);
    assert_eq!(pull(&mut engine), None);
}

#[test]
fn nothing_is_pulled_before_activation() {
    let mut engine = engine_with("title: Start\n---\nHello\n===\n");
    assert_eq!(pull(&mut engine), None);
}

#[test]
fn missing_node_ends_at_first_pull() {
    let mut engine = engine_with("title: Start\n---\nHello\n===\n");
    engine.activate(name("Nowhere"));
    assert_eq!(pull(&mut engine), Some(YarnEntry::EndConversation));
    assert_eq!(pull(&mut engine), None);
}

#[test]
fn activation_restarts_an_ended_conversation() {
    let mut engine = engine_with("title: Start\n---\nHello\n===\n");
    engine.activate(name("Start"));
    assert_eq!(pull(&mut engine), say("Hello"));
    assert_eq!(pull(&mut engine), Some(YarnEntry::EndConversation));
    assert_eq!(pull(&mut engine), None);
    engine.activate(name("Start"));
    assert_eq!(pull(&mut engine), say("Hello"));
}

const FORK: &str = "title: Start\n---\nHi\n[[go1|End1]]\n[[go2|End2]]\n===\n\
title: End1\n---\nFirst ending\n===\n\
title: End2\n---\nSecond ending\n===\n";

fn fork_choice() -> Option<YarnEntry> {
    Some(YarnEntry::Choose {
        text: "Hi".to_string(),
        choices: vec!["go1".to_string(), "go2".to_string()],
    })
}

#[test]
fn choose_event_repeats_until_a_choice_is_made() {
    let mut engine = engine_with(FORK);
    engine.activate(name("Start"));
    assert_eq!(pull(&mut engine), fork_choice());
    assert_eq!(pull(&mut engine), fork_choice());
    assert_eq!(pull(&mut engine), fork_choice());
    engine.choose_option(0).unwrap();
    assert_eq!(pull(&mut engine), say("First ending"));
}

#[test]
fn external_choice_leads_into_the_target_node() {
    let mut engine = engine_with(FORK);
    engine.activate(name("Start"));
    assert_eq!(pull(&mut engine), fork_choice());
    assert_eq!(engine.choose_option(1), Ok(()));
    assert_eq!(pull(&mut engine), say("Second ending"));
    assert_eq!(pull(&mut engine), Some(YarnEntry::EndConversation));
    assert_eq!(pull(&mut engine), None);
}

#[test]
fn choice_errors_leave_the_conversation_where_it_is() {
    let mut engine = engine_with(FORK);
    assert_eq!(engine.choose_option(0), Err(ChoiceError::NoConversation));
    engine.activate(name("Nowhere"));
    assert_eq!(engine.choose_option(0), Err(ChoiceError::NoCurrentStep));
    engine.activate(name("End1"));
    assert_eq!(engine.choose_option(0), Err(ChoiceError::NotAChoice));
    assert_eq!(pull(&mut engine), say("First ending"));
    engine.activate(name("Start"));
    assert_eq!(engine.choose_option(2), Err(ChoiceError::OutOfRange));
    assert_eq!(pull(&mut engine), fork_choice());
    assert_eq!(engine.choose_option(1), Ok(()));
    assert_eq!(pull(&mut engine), say("Second ending"));
}

#[test]
fn link_without_text_shows_its_target() {
    let mut engine = engine_with(
        "title: Start\n---\nWhere to?\n[[End1]]\n===\ntitle: End1\n---\nArrived\n===\n",
    );
    engine.activate(name("Start"));
    assert_eq!(
        pull(&mut engine),
        Some(YarnEntry::Choose {
            text: "Where to?".to_string(),
            choices: vec!["End1".to_string()],
        })
    );
    engine.choose_option(0).unwrap();
    assert_eq!(pull(&mut engine), say("Arrived"));
}

#[test]
fn jump_moves_to_the_target_without_an_event() {
    let mut engine = engine_with(
        "title: Start\n---\n[[Other]]\nnever said\n===\ntitle: Other\n---\nOver here\n===\n",
    );
    engine.activate(name("Start"));
    assert_eq!(pull(&mut engine), say("Over here"));
    assert_eq!(pull(&mut engine), Some(YarnEntry::EndConversation));
}

#[test]
fn command_is_passed_on_unmodified() {
    let mut engine = engine_with("title: Start\n---\n<<shake camera 3>>\nDone\n===\n");
    engine.activate(name("Start"));
    assert_eq!(
        pull(&mut engine),
        Some(YarnEntry::Command {
            action: "shake camera 3".to_string()
        })
    );
    assert_eq!(pull(&mut engine), say("Done"));
}

#[test]
fn else_if_branch_alone_is_entered() {
    let mut engine = engine_with(
        "title: Start\n---\n<<set $a 0>>\n<<set $b 1>>\n<<if $a>>\nfirst\n<<elseif $b>>\nsecond\n\
<<elseif $b>>\nthird\n<<else>>\nfourth\n<<endif>>\nafter\n===\n",
    );
    engine.activate(name("Start"));
    assert_eq!(pull(&mut engine), say("second"));
    assert_eq!(pull(&mut engine), Some(YarnEntry::EndConversation));
    assert_eq!(pull(&mut engine), None);
}

#[test]
fn first_branch_is_entered_when_its_condition_holds() {
    let mut engine = engine_with(
        "title: Start\n---\n<<if 1>>\nfirst\nfirst again\n<<else>>\nother\n<<endif>>\n===\n",
    );
    engine.activate(name("Start"));
    assert_eq!(pull(&mut engine), say("first"));
    assert_eq!(pull(&mut engine), say("first again"));
    assert_eq!(pull(&mut engine), Some(YarnEntry::EndConversation));
}

#[test]
fn else_branch_is_entered_when_no_condition_holds() {
    let mut engine = engine_with(
        "title: Start\n---\n<<if 0>>\nfirst\n<<elseif 0>>\nsecond\n<<else>>\nother\n<<endif>>\n===\n",
    );
    engine.activate(name("Start"));
    assert_eq!(pull(&mut engine), say("other"));
    assert_eq!(pull(&mut engine), Some(YarnEntry::EndConversation));
}

#[test]
fn conditional_without_else_and_no_true_condition_ends() {
    let mut engine =
        engine_with("title: Start\n---\n<<if 0>>\nfirst\n<<endif>>\nafter\n===\n");
    engine.activate(name("Start"));
    assert_eq!(pull(&mut engine), Some(YarnEntry::EndConversation));
}

#[test]
fn exhausted_branch_ends_the_conversation() {
    let mut engine = engine_with("title: Start\n---\n<<if 1>>\ninside\n<<endif>>\nafter\n===\n");
    engine.activate(name("Start"));
    assert_eq!(pull(&mut engine), say("inside"));
    assert_eq!(pull(&mut engine), Some(YarnEntry::EndConversation));
    assert_eq!(pull(&mut engine), None);
}

#[test]
fn external_choice_inside_a_branch_discards_the_branch() {
    let mut engine = engine_with(
        "title: Start\n---\n<<if 1>>\nPick\n[[one|End1]]\n<<endif>>\n===\n\
title: End1\n---\nFirst ending\nSecond line\n===\n",
    );
    engine.activate(name("Start"));
    assert_eq!(
        pull(&mut engine),
        Some(YarnEntry::Choose {
            text: "Pick".to_string(),
            choices: vec!["one".to_string()],
        })
    );
    engine.choose_option(0).unwrap();
    assert_eq!(pull(&mut engine), say("First ending"));
    assert_eq!(pull(&mut engine), say("Second line"));
    assert_eq!(pull(&mut engine), Some(YarnEntry::EndConversation));
}

#[test]
fn assignment_is_seen_by_later_expressions() {
    let mut engine = engine_with(
        "title: Start\n---\n<<set $x 1 + 2>>\n<<if $x == 3>>\nthree\n<<else>>\nother\n<<endif>>\n===\n",
    );
    engine.activate(name("Start"));
    assert_eq!(pull(&mut engine), say("three"));
}

#[test]
fn operators_associate_to_the_right_without_precedence() {
    // 2 * 3 + 4 reads as 2 * (3 + 4).
    let mut engine = engine_with(
        "title: Start\n---\n<<set $x 2 * 3 + 4>>\n<<if $x == 14>>\nfourteen\n<<else>>\nother\n<<endif>>\n===\n",
    );
    engine.activate(name("Start"));
    assert_eq!(pull(&mut engine), say("fourteen"));
}

#[test]
fn host_variable_is_read_by_expressions() {
    let mut engine = engine_with(
        "title: Start\n---\n<<if $gold - 2.5 == 7.5>>\nrich\n<<else>>\npoor\n<<endif>>\n===\n",
    );
    engine.set_variable(VariableName("gold".to_string()), Value::Number(number(10.0)));
    engine.activate(name("Start"));
    assert_eq!(pull(&mut engine), say("rich"));
}

#[test]
fn string_compares_with_the_text_of_a_number() {
    let mut engine = engine_with(
        "title: Start\n---\n<<if $s == 3>>\nsame\n<<else>>\ndifferent\n<<endif>>\n===\n",
    );
    engine.set_variable(VariableName("s".to_string()), Value::String("3".to_string()));
    engine.activate(name("Start"));
    assert_eq!(pull(&mut engine), say("same"));
}

#[test]
fn unknown_variable_fails() {
    let mut engine = engine_with("title: Start\n---\n<<set $x $y + 1>>\nnever\n===\n");
    engine.activate(name("Start"));
    assert_eq!(pull_or_error(&mut engine), Err(EvalError::UnknownVariable));
    // Nothing moved: the host can repair and pull again.
    engine.set_variable(VariableName("y".to_string()), Value::Number(number(1.0)));
    assert_eq!(pull_or_error(&mut engine), Ok(say("never")));
}

#[test]
fn unknown_function_fails() {
    let mut engine = engine_with("title: Start\n---\n<<if missing(1)>>\nnever\n<<endif>>\n===\n");
    engine.activate(name("Start"));
    assert_eq!(pull_or_error(&mut engine), Err(EvalError::UnknownFunction));
}

#[test]
fn wrong_arity_fails() {
    let mut engine =
        engine_with("title: Start\n---\n<<if visited($a $a)>>\nnever\n<<endif>>\n===\n");
    engine.set_variable(VariableName("a".to_string()), Value::String("Start".to_string()));
    engine.activate(name("Start"));
    assert_eq!(pull_or_error(&mut engine), Err(EvalError::ArityMismatch));
}

#[test]
fn failing_argument_comes_before_the_unknown_function() {
    let mut engine =
        engine_with("title: Start\n---\n<<if missing($nothing)>>\nnever\n<<endif>>\n===\n");
    engine.activate(name("Start"));
    assert_eq!(pull_or_error(&mut engine), Err(EvalError::UnknownVariable));
}

const VISITS: &str = "title: A\n---\n<<if visited($a)>>\nA was visited\n<<else>>\nA is new\n<<endif>>\n===\n\
title: B\n---\n<<if visited($a)>>\nA was visited\n<<else>>\nA is new\n<<endif>>\n===\n";

#[test]
fn node_is_unvisited_before_its_activation() {
    let mut engine = engine_with(VISITS);
    engine.set_variable(VariableName("a".to_string()), Value::String("A".to_string()));
    engine.activate(name("B"));
    assert_eq!(pull(&mut engine), say("A is new"));
}

#[test]
fn node_is_visited_once_activated_even_within_itself() {
    let mut engine = engine_with(VISITS);
    engine.set_variable(VariableName("a".to_string()), Value::String("A".to_string()));
    engine.activate(name("A"));
    assert_eq!(pull(&mut engine), say("A was visited"));
    engine.activate(name("B"));
    assert_eq!(pull(&mut engine), say("A was visited"));
}

#[test]
fn visited_rejects_unknown_nodes_and_other_kinds() {
    let mut engine = engine_with(VISITS);
    engine.set_variable(VariableName("a".to_string()), Value::String("Nowhere".to_string()));
    engine.activate(name("B"));
    assert_eq!(pull_or_error(&mut engine), Err(EvalError::Rejected));
    engine.set_variable(VariableName("a".to_string()), Value::Boolean(true));
    assert_eq!(pull_or_error(&mut engine), Err(EvalError::Rejected));
}

#[test]
fn jump_and_external_choice_mark_their_target() {
    let mut engine = engine_with(
        "title: Start\n---\n[[A]]\n===\n\
title: A\n---\nPick\n[[go|B]]\n===\n\
title: B\n---\n<<if visited($a)>>\nyes\n<<else>>\nno\n<<endif>>\n===\n",
    );
    engine.set_variable(VariableName("a".to_string()), Value::String("A".to_string()));
    engine.activate(name("Start"));
    assert!(matches!(pull(&mut engine), Some(YarnEntry::Choose { .. })));
    engine.choose_option(0).unwrap();
    assert_eq!(pull(&mut engine), say("yes"));
    engine.set_variable(VariableName("a".to_string()), Value::String("B".to_string()));
    engine.activate(name("B"));
    assert_eq!(pull(&mut engine), say("yes"));
}

struct Doubler {
    calls: Rc<Cell<u32>>,
}

impl HostFunction for Doubler {
    fn call(&self, args: Vec<Value>, _nodes: &Nodes) -> Result<Value, ()> {
        self.calls.set(self.calls.get() + 1);
        match &args[0] {
            Value::Number(n) => Ok(Value::Number(number(float(*n) * 2.0))),
            _ => Err(()),
        }
    }
}

#[test]
fn host_function_is_called_once_with_evaluated_arguments() {
    let mut engine = engine_with(
        "title: Start\n---\n<<set $y double(2 + 1) + 1>>\n<<if $y == 7>>\nseven\n<<else>>\nother\n<<endif>>\n===\n",
    );
    let calls = Rc::new(Cell::new(0));
    engine.register_function(
        "double".to_string(),
        1,
        Box::new(Doubler {
            calls: calls.clone(),
        }),
    );
    engine.activate(name("Start"));
    assert_eq!(pull(&mut engine), say("seven"));
    assert_eq!(calls.get(), 1);
}

#[test]
fn host_function_error_fails_the_step() {
    let mut engine = engine_with("title: Start\n---\n<<set $y double($s)>>\nnever\n===\n");
    engine.set_variable(VariableName("s".to_string()), Value::String("x".to_string()));
    engine.register_function(
        "double".to_string(),
        1,
        Box::new(Doubler {
            calls: Rc::new(Cell::new(0)),
        }),
    );
    engine.activate(name("Start"));
    assert_eq!(pull_or_error(&mut engine), Err(EvalError::Rejected));
}

struct Always(bool);

impl HostFunction for Always {
    fn call(&self, _args: Vec<Value>, _nodes: &Nodes) -> Result<Value, ()> {
        Ok(Value::Boolean(self.0))
    }
}

#[test]
fn registering_replaces_a_function_of_the_same_name() {
    let mut engine = engine_with(VISITS);
    engine.set_variable(VariableName("a".to_string()), Value::String("A".to_string()));
    engine.register_function("visited".to_string(), 1, Box::new(Always(true)));
    engine.activate(name("B"));
    assert_eq!(pull(&mut engine), say("A was visited"));
    engine.register_function("visited".to_string(), 1, Box::new(Always(false)));
    engine.activate(name("A"));
    assert_eq!(pull(&mut engine), say("A is new"));
}

#[test]
fn host_function_sees_the_nodes() {
    struct Knows;
    impl HostFunction for Knows {
        fn call(&self, args: Vec<Value>, nodes: &Nodes) -> Result<Value, ()> {
            match &args[0] {
                Value::String(s) => Ok(Value::Boolean(nodes.get(&NodeName(s.clone())).is_some())),
                _ => Err(()),
            }
        }
    }
    let mut engine = engine_with(
        "title: Start\n---\n<<if knows($n)>>\nknown\n<<else>>\nunknown\n<<endif>>\n===\n",
    );
    engine.register_function("knows".to_string(), 1, Box::new(Knows));
    engine.set_variable(VariableName("n".to_string()), Value::String("Start".to_string()));
    engine.activate(name("Start"));
    assert_eq!(pull(&mut engine), say("known"));
    engine.set_variable(VariableName("n".to_string()), Value::String("Other".to_string()));
    engine.activate(name("Start"));
    assert_eq!(pull(&mut engine), say("unknown"));
}

#[test]
fn malformed_script_changes_nothing() {
    let mut engine = engine_with("title: Start\n---\nHello\n===\n");
    assert!(engine
        .load_from_string("title: Other\n---\n<<if 1>>\nno end\n===\n")
        .is_err());
    engine.activate(name("Other"));
    assert_eq!(pull(&mut engine), Some(YarnEntry::EndConversation));
    engine.activate(name("Start"));
    assert_eq!(pull(&mut engine), say("Hello"));
}

#[test]
fn loads_accumulate_and_a_later_node_replaces_an_earlier_one() {
    let mut engine = engine_with("title: Start\n---\nold\n===\ntitle: Keep\n---\nkept\n===\n");
    engine
        .load_from_string("title: Start\n---\nnew\n===\ntitle: More\n---\nmore\n===\n")
        .unwrap();
    engine.activate(name("Start"));
    assert_eq!(pull(&mut engine), say("new"));
    engine.activate(name("Keep"));
    assert_eq!(pull(&mut engine), say("kept"));
    engine.activate(name("More"));
    assert_eq!(pull(&mut engine), say("more"));
}

#[test]
fn step_leaves_host_calls_to_the_caller() {
    let mut engine = engine_with("title: Start\n---\n<<set $y f()>>\nsaid\n===\n");
    engine.register_function("f".to_string(), 0, Box::new(Always(true)));
    engine.activate(name("Start"));
    match engine.step() {
        Pull::Need(Request::Call(name, args)) => {
            assert_eq!(name, "f");
            assert!(args.is_empty());
        }
        other => panic!("unexpected {:?}", other),
    }
    engine.supply(Answer::Returned(Ok(Value::Boolean(false))));
    assert!(matches!(engine.step(), Pull::Continue));
    assert!(matches!(engine.step(), Pull::Entry(YarnEntry::Say(_))));
}

#[test]
fn answer_of_the_wrong_kind_is_a_protocol_error() {
    let mut engine = engine_with("title: Start\n---\n<<set $x 1>>\nsaid\n===\n");
    engine.activate(name("Start"));
    assert!(matches!(engine.next(), Pull::Need(Request::Parse(_))));
    engine.supply(Answer::Text("one".to_string()));
    assert!(matches!(engine.next(), Pull::Failed(EvalError::Protocol)));
    // The answers were dropped: the request is made again.
    assert!(matches!(engine.next(), Pull::Need(Request::Parse(_))));
    engine.supply(Answer::Number(number(1.0)));
    assert!(matches!(engine.next(), Pull::Continue));
    assert_eq!(pull(&mut engine), say("said"));
}

fn line(s: &str) -> Step {
    Step::Dialogue(s.to_string(), vec![])
}

fn node_with_inline_choices() -> Node {
    Node {
        title: name("Start"),
        extra: Table::new(),
        steps: vec![
            Step::Dialogue(
                "Pick".to_string(),
                vec![
                    Choice::inline("first".to_string(), vec![line("one"), line("one more")], None),
                    Choice::inline("second".to_string(), vec![line("two")], None),
                    Choice::external("leave".to_string(), name("Start")),
                ],
            ),
            line("after"),
        ],
        visited: false,
    }
}

#[test]
fn inline_choice_enters_its_own_steps() {
    let mut engine = YarnEngine::new();
    engine.add_nodes(vec![node_with_inline_choices()]);
    engine.activate(name("Start"));
    assert_eq!(
        pull(&mut engine),
        Some(YarnEntry::Choose {
            text: "Pick".to_string(),
            choices: vec!["first".to_string(), "second".to_string(), "leave".to_string()],
        })
    );
    engine.choose_option(0).unwrap();
    assert_eq!(pull(&mut engine), say("one"));
    assert_eq!(pull(&mut engine), say("one more"));
    // The choice's steps are exhausted: the conversation ends there.
    assert_eq!(pull(&mut engine), Some(YarnEntry::EndConversation));
    assert_eq!(pull(&mut engine), None);
}

#[test]
fn second_inline_choice_enters_the_second_steps() {
    let mut engine = YarnEngine::new();
    engine.add_nodes(vec![node_with_inline_choices()]);
    engine.activate(name("Start"));
    assert!(matches!(pull(&mut engine), Some(YarnEntry::Choose { .. })));
    engine.choose_option(1).unwrap();
    assert_eq!(pull(&mut engine), say("two"));
    assert_eq!(pull(&mut engine), Some(YarnEntry::EndConversation));
}

#[test]
fn external_choice_back_to_the_node_starts_it_afresh() {
    let mut engine = YarnEngine::new();
    engine.add_nodes(vec![node_with_inline_choices()]);
    engine.activate(name("Start"));
    assert!(matches!(pull(&mut engine), Some(YarnEntry::Choose { .. })));
    engine.choose_option(2).unwrap();
    assert!(matches!(pull(&mut engine), Some(YarnEntry::Choose { .. })));
    assert_eq!(engine.choose_option(3), Err(ChoiceError::OutOfRange));
}

#[test]
fn later_added_node_replaces_the_earlier_of_its_title() {
    let mut engine = YarnEngine::new();
    let older = Node {
        title: name("Start"),
        extra: Table::new(),
        steps: vec![line("older")],
        visited: false,
    };
    let newer = Node {
        title: name("Start"),
        extra: Table::new(),
        steps: vec![line("newer")],
        visited: false,
    };
    engine.add_nodes(vec![older, newer]);
    engine.activate(name("Start"));
    assert_eq!(pull(&mut engine), say("newer"));
}

fn is_send<T: Send>(_: &T) -> bool {
    true
}

#[test]
fn engine_holding_host_functions_is_sendable() {
    let mut engine = YarnEngine::new();
    // The function holds an `Rc` and is not `Send` by itself.
    engine.register_function(
        "double".to_string(),
        1,
        Box::new(Doubler {
            calls: Rc::new(Cell::new(0)),
        }),
    );
    assert!(is_send(&engine));
}
