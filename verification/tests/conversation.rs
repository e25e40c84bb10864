use yarn::ast::{Choice, Step};
use yarn::conversation::{enter_scope, resolve_step, Conversation, StepIndex};
use yarn::table::Table;
use yarn::{NodeName, VariableName};
use yarn::expression::read_expression;
use yarn::text::Text;

fn line(s: &str) -> Step {
    Step::Dialogue(s.to_string(), vec![])
}

fn condition() -> yarn::ast::Expr {
    read_expression(&Text::new("$c")).unwrap()
}

fn at(base_index: usize, indexes: Vec<StepIndex>) -> Conversation {
    Conversation {
        node: NodeName("N".to_string()),
        base_index,
        indexes,
    }
}

fn steps() -> Vec<Step> {
    vec![
        line("zero"),
        Step::Dialogue(
            "one".to_string(),
            vec![
                Choice::external("out".to_string(), NodeName("Other".to_string())),
                Choice::inline(
                    "in".to_string(),
                    vec![
                        line("inner zero"),
                        Step::Conditional(
                            condition(),
                            vec![line("then zero"), line("then one")],
                            vec![
                                (condition(), vec![line("first else-if")]),
                                (condition(), vec![line("second else-if"), line("and on")]),
                            ],
                            vec![line("else zero")],
                        ),
                    ],
                    None,
                ),
            ],
        ),
        Step::Command("two".to_string()),
    ]
}

#[test]
fn new_conversation_stands_at_the_first_step() {
    let c = Conversation::new(NodeName("Start".to_string()));
    assert_eq!(c.node, NodeName("Start".to_string()));
    assert_eq!(c.base_index, 0);
    assert!(c.indexes.is_empty());
}

#[test]
fn step_index_advances_its_position_only() {
    let mut i = StepIndex::Dialogue(3, 0);
    i.advance();
    assert_eq!(i, StepIndex::Dialogue(3, 1));
    let mut i = StepIndex::If(4);
    i.advance();
    assert_eq!(i, StepIndex::If(5));
    let mut i = StepIndex::ElseIf(2, 7);
    i.advance();
    i.advance();
    assert_eq!(i, StepIndex::ElseIf(2, 9));
    let mut i = StepIndex::Else(0);
    i.advance();
    assert_eq!(i, StepIndex::Else(1));
}

#[test]
fn conversation_advances_its_innermost_position() {
    let mut c = Conversation::new(NodeName("Start".to_string()));
    c.advance();
    c.advance();
    assert_eq!(c.base_index, 2);
    c.push(StepIndex::If(0));
    c.advance();
    assert_eq!(c.base_index, 2);
    assert_eq!(c.indexes, vec![StepIndex::If(1)]);
    c.push(StepIndex::Dialogue(1, 0));
    c.advance();
    c.advance();
    assert_eq!(c.indexes, vec![StepIndex::If(1), StepIndex::Dialogue(1, 2)]);
}

#[test]
fn top_level_positions_resolve_to_top_level_steps() {
    let steps = steps();
    assert_eq!(resolve_step(&steps, &at(0, vec![])), Some(&line("zero")));
    assert_eq!(
        resolve_step(&steps, &at(2, vec![])),
        Some(&Step::Command("two".to_string()))
    );
    assert_eq!(resolve_step(&steps, &at(3, vec![])), None);
}

#[test]
fn scopes_lead_into_choices_and_branches() {
    let steps = steps();
    assert_eq!(
        resolve_step(&steps, &at(1, vec![StepIndex::Dialogue(1, 0)])),
        Some(&line("inner zero"))
    );
    let inner = vec![StepIndex::Dialogue(1, 1)];
    let with = |last: StepIndex| {
        let mut path = inner.clone();
        path.push(last);
        at(1, path)
    };
    assert_eq!(resolve_step(&steps, &with(StepIndex::If(1))), Some(&line("then one")));
    assert_eq!(
        resolve_step(&steps, &with(StepIndex::ElseIf(0, 0))),
        Some(&line("first else-if"))
    );
    assert_eq!(
        resolve_step(&steps, &with(StepIndex::ElseIf(1, 1))),
        Some(&line("and on"))
    );
    assert_eq!(resolve_step(&steps, &with(StepIndex::Else(0))), Some(&line("else zero")));
}

#[test]
fn position_past_the_end_of_a_scope_has_no_step() {
    let steps = steps();
    assert_eq!(resolve_step(&steps, &at(1, vec![StepIndex::Dialogue(1, 2)])), None);
    assert_eq!(
        resolve_step(
            &steps,
            &at(1, vec![StepIndex::Dialogue(1, 1), StepIndex::If(2)])
        ),
        None
    );
}

#[test]
fn scope_that_does_not_fit_its_step_has_no_step() {
    let steps = steps();
    // An external choice has no steps.
    assert_eq!(resolve_step(&steps, &at(1, vec![StepIndex::Dialogue(0, 0)])), None);
    // No such choice.
    assert_eq!(resolve_step(&steps, &at(1, vec![StepIndex::Dialogue(2, 0)])), None);
    // A branch of what is no conditional.
    assert_eq!(resolve_step(&steps, &at(1, vec![StepIndex::If(0)])), None);
    assert_eq!(resolve_step(&steps, &at(0, vec![StepIndex::Dialogue(0, 0)])), None);
    assert_eq!(resolve_step(&steps, &at(2, vec![StepIndex::Else(0)])), None);
    // No such else-if branch.
    assert_eq!(
        resolve_step(
            &steps,
            &at(1, vec![StepIndex::Dialogue(1, 1), StepIndex::ElseIf(2, 0)])
        ),
        None
    );
    // The outer position is past the end.
    assert_eq!(resolve_step(&steps, &at(3, vec![StepIndex::If(0)])), None);
    assert!(enter_scope(&steps[0], StepIndex::Else(0)).is_none());
}

#[test]
fn table_binds_each_name_once() {
    let mut table: Table<u32> = Table::new();
    assert_eq!(table.len(), 0);
    assert_eq!(table.get(&"a".to_string()), None);
    table.insert("a".to_string(), 1);
    table.insert("b".to_string(), 2);
    table.insert("a".to_string(), 3);
    assert_eq!(table.len(), 2);
    assert_eq!(table.get(&"a".to_string()), Some(&3));
    assert_eq!(table.get(&"b".to_string()), Some(&2));
    assert_eq!(table.get(&"c".to_string()), None);
    assert_eq!(table.position(&"b".to_string()), Some(1));
    assert_eq!(table.name_at(0), "a");
    assert_eq!(table.item_at(1), &2);
    *table.item_mut(1) = 5;
    table.set_item(0, 4);
    assert_eq!(table.get(&"a".to_string()), Some(&4));
    assert_eq!(table.get(&"b".to_string()), Some(&5));
}

#[test]
fn names_compare_by_their_text() {
    assert_eq!(NodeName("a".to_string()), NodeName("a".to_string()));
    assert_ne!(NodeName("a".to_string()), NodeName("b".to_string()));
    assert_eq!(VariableName("x".to_string()).clone(), VariableName("x".to_string()));
}
