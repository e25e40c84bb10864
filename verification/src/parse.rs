//! From items to nodes.
//!
//! A node is a header, `---`, a body and `===`. The header holds lines of
//! the form `key: value`, among them exactly one with the key `title`. The
//! body is a sequence of steps:
//!
//! * a line of text is a line of dialogue, and the links and shortcut
//!   options that follow it directly are its choices;
//! * a command is passed on as it stands, `set` is an assignment;
//! * a link without text that follows no dialogue is a jump;
//! * `if`, any number of `elseif`, at most one `else`, and `endif` enclose
//!   the branches of a conditional, each a sequence of steps.
//!
//! Parsing is all or nothing: one item out of place and the script has no
//! nodes.

use vstd::prelude::*;
use crate::ast::{
    Choice, ChoiceKindModel, ChoiceModel, Expr, ExprModel, NodeName, Step, StepModel,
    branch_models, choice_models, step_model, step_models,
};
use crate::expression::is_word;
use crate::node::{Node, NodeModel, extra_model, node_models};
use crate::scan::{
    Item, ItemModel, find_char, first_at, item_models, items_from, scan_items, trim, trimmed,
};
use crate::table::Table;
use crate::text::Text;

verus! {

/// The script is malformed.
#[derive(Clone, Copy, Debug, PartialEq, Eq, Structural)]
pub struct ParseError {}

/// The run of choices at the front of `items`, with the items behind it.
/// A link without text shows the name of its target. A shortcut option has
/// no steps of its own.
pub open spec fn choices(items: Seq<ItemModel>) -> (Seq<ChoiceModel>, Seq<ItemModel>)
    decreases items.len(),
{
    if items.len() == 0 {
        (Seq::empty(), items)
    } else {
        match items[0] {
            ItemModel::Link(text, target) => {
                let (rest, left) = choices(items.drop_first());
                (
                    seq![
                        ChoiceModel {
                            text: match text {
                                Some(t) => t,
                                None => target,
                            },
                            kind: ChoiceKindModel::External(target),
                        },
                    ] + rest,
                    left,
                )
            },
            ItemModel::Shortcut(text, guard) => {
                let (rest, left) = choices(items.drop_first());
                (
                    seq![ChoiceModel { text, kind: ChoiceKindModel::Inline(Seq::empty(), guard) }]
                        + rest,
                    left,
                )
            },
            _ => (Seq::empty(), items),
        }
    }
}

/// Whether `item` ends a sequence of steps.
pub open spec fn closes_block(item: ItemModel) -> bool {
    item is ElseIf || item is Else || item is EndIf || item is NodeEnd || item is HeaderEnd
}

/// The step at the front of `items`, with the items behind it.
pub open spec fn step(items: Seq<ItemModel>) -> Option<(StepModel, Seq<ItemModel>)>
    decreases items.len(), 0nat,
{
    if items.len() == 0 {
        None
    } else {
        let rest = items.drop_first();
        match items[0] {
            ItemModel::Text(text) => {
                let (options, left) = choices(rest);
                Some((StepModel::Dialogue(text, options), left))
            },
            ItemModel::Command(text) => Some((StepModel::Command(text), rest)),
            ItemModel::Assign(name, e) => Some((StepModel::Assign(name, e), rest)),
            ItemModel::Link(None, target) => Some((StepModel::Jump(target), rest)),
            ItemModel::If(cond) => conditional(cond, rest),
            _ => None,
        }
    }
}

/// The steps at the front of `items` up to the item that closes them, with
/// that item and what follows it.
pub open spec fn block(items: Seq<ItemModel>) -> Option<(Seq<StepModel>, Seq<ItemModel>)>
    decreases items.len(), 1nat,
{
    if items.len() == 0 || closes_block(items[0]) {
        Some((Seq::empty(), items))
    } else {
        match step(items) {
            None => None,
            Some((first, left)) => if left.len() < items.len() {
                match block(left) {
                    Some((more, rest)) => Some((seq![first] + more, rest)),
                    None => None,
                }
            } else {
                None
            },
        }
    }
}

/// The else-if branches at the front of `items`.
pub open spec fn else_ifs(items: Seq<ItemModel>) -> Option<
    (Seq<(ExprModel, Seq<StepModel>)>, Seq<ItemModel>),
>
    decreases items.len(), 2nat,
{
    if items.len() > 0 && items[0] is ElseIf {
        match block(items.drop_first()) {
            None => None,
            Some((steps, left)) => if left.len() < items.len() {
                match else_ifs(left) {
                    Some((more, rest)) => Some((seq![(items[0]->ElseIf_0, steps)] + more, rest)),
                    None => None,
                }
            } else {
                None
            },
        }
    } else {
        Some((Seq::empty(), items))
    }
}

/// The else branch at the front of `items`, empty where there is none.
pub open spec fn else_branch(items: Seq<ItemModel>) -> Option<(Seq<StepModel>, Seq<ItemModel>)>
    decreases items.len(), 2nat,
{
    if items.len() > 0 && items[0] is Else {
        block(items.drop_first())
    } else {
        Some((Seq::empty(), items))
    }
}

/// The conditional whose `if` was just read: its first branch, its else-if
/// branches, its else branch and the closing `endif`.
pub open spec fn conditional(cond: ExprModel, items: Seq<ItemModel>) -> Option<
    (StepModel, Seq<ItemModel>),
>
    decreases items.len(), 3nat,
{
    match block(items) {
        None => None,
        Some((then_steps, left)) => if left.len() <= items.len() {
            match else_ifs(left) {
                None => None,
                Some((branches, left2)) => if left2.len() <= items.len() {
                    match else_branch(left2) {
                        None => None,
                        Some((else_steps, left3)) => if left3.len() > 0 && left3[0] is EndIf {
                            Some(
                                (
                                    StepModel::Conditional(cond, then_steps, branches, else_steps),
                                    left3.drop_first(),
                                ),
                            )
                        } else {
                            None
                        },
                    }
                } else {
                    None
                },
            }
        } else {
            None
        },
    }
}

/// The key and the value of a header line: what stands before the first
/// colon, and what stands behind it without the blanks around it.
pub open spec fn split_header(line: Seq<char>) -> Option<(Seq<char>, Seq<char>)> {
    match first_at(line, 0, ':') {
        Some(colon) => Some(
            (line.subrange(0, colon as int), trim(line.subrange(colon as int + 1, line.len() as int))),
        ),
        None => None,
    }
}

/// The header at the front of `items`, given the title and the other
/// entries read so far: the title, the other entries, and the items behind
/// `---`. A second title, a line without a colon, any other item and a
/// header without a title are errors.
pub open spec fn header(
    items: Seq<ItemModel>,
    title: Option<Seq<char>>,
    extra: Map<Seq<char>, Seq<char>>,
) -> Option<(Seq<char>, Map<Seq<char>, Seq<char>>, Seq<ItemModel>)>
    decreases items.len(),
{
    if items.len() == 0 {
        None
    } else {
        match items[0] {
            ItemModel::HeaderEnd => match title {
                Some(t) => Some((t, extra, items.drop_first())),
                None => None,
            },
            ItemModel::Text(line) => match split_header(line) {
                Some((key, value)) => if key == "title"@ {
                    if title is Some {
                        None
                    } else {
                        header(items.drop_first(), Some(value), extra)
                    }
                } else {
                    header(items.drop_first(), title, extra.insert(key, value))
                },
                None => None,
            },
            _ => None,
        }
    }
}

/// The node at the front of `items`, with the items behind its `===`. A
/// node that was just parsed has not been visited.
pub open spec fn node(items: Seq<ItemModel>) -> Option<(NodeModel, Seq<ItemModel>)> {
    match header(items, None, Map::empty()) {
        None => None,
        Some((title, extra, left)) => match block(left) {
            None => None,
            Some((steps, left2)) => if left2.len() > 0 && left2[0] is NodeEnd {
                Some((NodeModel { title, extra, steps, visited: false }, left2.drop_first()))
            } else {
                None
            },
        },
    }
}

/// The nodes that `items` make up.
pub open spec fn nodes(items: Seq<ItemModel>) -> Option<Seq<NodeModel>>
    decreases items.len(),
{
    if items.len() == 0 {
        Some(Seq::empty())
    } else {
        match node(items) {
            None => None,
            Some((first, left)) => if left.len() < items.len() {
                match nodes(left) {
                    Some(rest) => Some(seq![first] + rest),
                    None => None,
                }
            } else {
                None
            },
        }
    }
}

/// The nodes of a script; `None` for a malformed one.
pub open spec fn parse_nodes(text: Seq<char>) -> Option<Seq<NodeModel>> {
    match items_from(text, 0) {
        Some(items) => nodes(items),
        None => None,
    }
}

/// The items still to be read, next one first: `stack` holds them last one
/// first, so that the next item is the one that `pop` takes.
pub open spec fn upcoming(stack: Seq<Item>) -> Seq<ItemModel> {
    Seq::new(stack.len(), |i: int| stack[stack.len() - 1 - i]@)
}

/// Taking the last item off the stack takes the first off what is to be
/// read.
pub proof fn lemma_upcoming_pop(stack: Seq<Item>)
    requires
        stack.len() > 0,
    ensures
        upcoming(stack)[0] == stack.last()@,
        upcoming(stack.drop_last()) == upcoming(stack).drop_first(),
{
    assert(upcoming(stack.drop_last()) =~= upcoming(stack).drop_first());
}

/// The list in reverse order.
pub fn reversed<T>(items: Vec<T>) -> (r: Vec<T>)
    ensures
        r@.len() == items@.len(),
        forall|j: int| 0 <= j < r@.len() ==> r@[j] == items@[items@.len() - 1 - j],
{
    let ghost total = items@;
    let mut rest = items;
    let mut out: Vec<T> = Vec::new();
    while rest.len() > 0
        invariant
            rest@.len() + out@.len() == total.len(),
            forall|j: int| 0 <= j < rest@.len() ==> rest@[j] == total[j],
            forall|j: int| 0 <= j < out@.len() ==> out@[j] == total[total.len() - 1 - j],
        decreases rest@.len(),
    {
        let item = rest.pop().unwrap();
        out.push(item);
    }
    out
}

/// The run of choices at the front of the items.
fn read_choices(stack: &mut Vec<Item>) -> (r: Vec<Choice>)
    ensures
        choice_models(r@) == choices(upcoming(old(stack)@)).0,
        upcoming(final(stack)@) == choices(upcoming(old(stack)@)).1,
        final(stack)@.len() <= old(stack)@.len(),
{
    let mut out: Vec<Choice> = Vec::new();
    let ghost start = upcoming(stack@);
    assert(choice_models(out@) =~= Seq::<ChoiceModel>::empty());
    loop
        invariant
            stack@.len() <= old(stack)@.len(),
            start == upcoming(old(stack)@),
            choices(start).0 == choice_models(out@) + choices(upcoming(stack@)).0,
            choices(start).1 == choices(upcoming(stack@)).1,
        ensures
            choices(start).0 == choice_models(out@),
            choices(start).1 == upcoming(stack@),
            stack@.len() <= old(stack)@.len(),
        decreases stack@.len(),
    {
        let n = stack.len();
        if n == 0 {
            assert(choice_models(out@) + Seq::<ChoiceModel>::empty() =~= choice_models(out@));
            break;
        }
        proof {
            lemma_upcoming_pop(stack@);
        }
        let is_choice = match &stack[n - 1] {
            Item::Link(_, _) => true,
            Item::Shortcut(_, _) => true,
            _ => false,
        };
        if !is_choice {
            assert(choice_models(out@) + Seq::<ChoiceModel>::empty() =~= choice_models(out@));
            break;
        }
        let ghost before = upcoming(stack@);
        let item = stack.pop().unwrap();
        let choice = match item {
            Item::Link(Some(text), target) => Choice::external(text, target),
            Item::Link(None, target) => {
                let text = target.0.clone();
                Choice::external(text, target)
            },
            Item::Shortcut(text, guard) => {
                let steps: Vec<Step> = Vec::new();
                assert(step_models(steps@) =~= Seq::<StepModel>::empty());
                Choice::inline(text, steps, guard)
            },
            _ => vstd::pervasive::unreached(),
        };
        proof {
            let rest = choices(before.drop_first()).0;
            assert(choices(before).0 == seq![choice@] + rest);
            assert(choice_models(out@.push(choice)) =~= choice_models(out@) + seq![choice@]);
            assert(choice_models(out@.push(choice)) + rest =~= choice_models(out@) + (seq![
                choice@,
            ] + rest));
        }
        out.push(choice);
    }
    out
}

/// The step at the front of the items.
fn read_step(stack: &mut Vec<Item>) -> (r: Option<Step>)
    ensures
        r is Some <==> step(upcoming(old(stack)@)) is Some,
        r matches Some(s) ==> step(upcoming(old(stack)@)) == Some((s@, upcoming(final(stack)@)))
            && final(stack)@.len() < old(stack)@.len(),
        final(stack)@.len() <= old(stack)@.len(),
    decreases old(stack)@.len(), 0nat,
{
    proof {
        reveal_with_fuel(step_model, 2);
    }
    if stack.len() == 0 {
        return None;
    }
    proof {
        lemma_upcoming_pop(stack@);
    }
    match stack.pop().unwrap() {
        Item::Text(text) => {
            let options = read_choices(stack);
            Some(Step::Dialogue(text, options))
        },
        Item::Command(text) => Some(Step::Command(text)),
        Item::Assign(name, e) => Some(Step::Assign(name, e)),
        Item::Link(None, target) => Some(Step::Jump(target)),
        Item::If(cond) => read_conditional(cond, stack),
        _ => None,
    }
}

/// The steps at the front of the items, up to the item that closes them.
fn read_block(stack: &mut Vec<Item>) -> (r: Option<Vec<Step>>)
    ensures
        r is Some <==> block(upcoming(old(stack)@)) is Some,
        r matches Some(steps) ==> block(upcoming(old(stack)@)) == Some(
            (step_models(steps@), upcoming(final(stack)@)),
        ),
        final(stack)@.len() <= old(stack)@.len(),
    decreases old(stack)@.len(), 1nat,
{
    let mut out: Vec<Step> = Vec::new();
    let ghost start = upcoming(stack@);
    assert(step_models(out@) =~= Seq::<StepModel>::empty());
    loop
        invariant
            stack@.len() <= old(stack)@.len(),
            start == upcoming(old(stack)@),
            block(start) == (match block(upcoming(stack@)) {
                Some((more, rest)) => Some((step_models(out@) + more, rest)),
                None => None,
            }),
        decreases stack@.len(),
    {
        let n = stack.len();
        if n == 0 {
            assert(step_models(out@) + Seq::<StepModel>::empty() =~= step_models(out@));
            return Some(out);
        }
        proof {
            lemma_upcoming_pop(stack@);
        }
        let closes = match &stack[n - 1] {
            Item::ElseIf(_) => true,
            Item::Else => true,
            Item::EndIf => true,
            Item::NodeEnd => true,
            Item::HeaderEnd => true,
            _ => false,
        };
        if closes {
            assert(step_models(out@) + Seq::<StepModel>::empty() =~= step_models(out@));
            return Some(out);
        }
        match read_step(stack) {
            None => {
                return None;
            },
            Some(s) => {
                proof {
                    match block(upcoming(stack@)) {
                        Some((more, rest)) => {
                            assert(step_models(out@.push(s)) + more =~= step_models(out@) + (seq![
                                s@,
                            ] + more));
                        },
                        None => {},
                    }
                    assert(step_models(out@.push(s)) =~= step_models(out@) + seq![s@]);
                }
                out.push(s);
            },
        }
    }
}

/// The else-if branches at the front of the items.
fn read_else_ifs(stack: &mut Vec<Item>) -> (r: Option<Vec<(Expr, Vec<Step>)>>)
    ensures
        r is Some <==> else_ifs(upcoming(old(stack)@)) is Some,
        r matches Some(branches) ==> else_ifs(upcoming(old(stack)@)) == Some(
            (branch_models(branches@), upcoming(final(stack)@)),
        ),
        final(stack)@.len() <= old(stack)@.len(),
    decreases old(stack)@.len(), 2nat,
{
    let mut out: Vec<(Expr, Vec<Step>)> = Vec::new();
    let ghost start = upcoming(stack@);
    assert(branch_models(out@) =~= Seq::<(ExprModel, Seq<StepModel>)>::empty());
    loop
        invariant
            stack@.len() <= old(stack)@.len(),
            start == upcoming(old(stack)@),
            else_ifs(start) == (match else_ifs(upcoming(stack@)) {
                Some((more, rest)) => Some((branch_models(out@) + more, rest)),
                None => None,
            }),
        decreases stack@.len(),
    {
        let n = stack.len();
        let is_else_if = n > 0 && match &stack[n - 1] {
            Item::ElseIf(_) => true,
            _ => false,
        };
        if n > 0 {
            proof {
                lemma_upcoming_pop(stack@);
            }
        }
        if !is_else_if {
            assert(branch_models(out@) + Seq::<(ExprModel, Seq<StepModel>)>::empty()
                =~= branch_models(out@));
            return Some(out);
        }
        let cond = match stack.pop().unwrap() {
            Item::ElseIf(cond) => cond,
            _ => vstd::pervasive::unreached(),
        };
        match read_block(stack) {
            None => {
                return None;
            },
            Some(steps) => {
                let branch = (cond, steps);
                proof {
                    let model = (cond@, step_models(steps@));
                    assert(branch_models(out@.push(branch)) =~= branch_models(out@) + seq![model]);
                    match else_ifs(upcoming(stack@)) {
                        Some((more, rest)) => {
                            assert(branch_models(out@.push(branch)) + more =~= branch_models(out@)
                                + (seq![model] + more));
                        },
                        None => {},
                    }
                }
                out.push(branch);
            },
        }
    }
}

/// The conditional whose `if` was just read.
fn read_conditional(cond: Expr, stack: &mut Vec<Item>) -> (r: Option<Step>)
    ensures
        r is Some <==> conditional(cond@, upcoming(old(stack)@)) is Some,
        r matches Some(s) ==> conditional(cond@, upcoming(old(stack)@)) == Some(
            (s@, upcoming(final(stack)@)),
        ) && final(stack)@.len() < old(stack)@.len(),
        final(stack)@.len() <= old(stack)@.len(),
    decreases old(stack)@.len(), 3nat,
{
    proof {
        reveal_with_fuel(step_model, 2);
    }
    let then_steps = match read_block(stack) {
        None => {
            return None;
        },
        Some(steps) => steps,
    };
    let branches = match read_else_ifs(stack) {
        None => {
            return None;
        },
        Some(branches) => branches,
    };
    let n = stack.len();
    let has_else = n > 0 && match &stack[n - 1] {
        Item::Else => true,
        _ => false,
    };
    if n > 0 {
        proof {
            lemma_upcoming_pop(stack@);
        }
    }
    let else_steps = if has_else {
        let _ = stack.pop();
        match read_block(stack) {
            None => {
                return None;
            },
            Some(steps) => steps,
        }
    } else {
        let steps: Vec<Step> = Vec::new();
        assert(step_models(steps@) =~= Seq::<StepModel>::empty());
        steps
    };
    let m = stack.len();
    if m == 0 {
        return None;
    }
    proof {
        lemma_upcoming_pop(stack@);
    }
    match stack.pop().unwrap() {
        Item::EndIf => Some(Step::Conditional(cond, then_steps, branches, else_steps)),
        _ => None,
    }
}

/// The key and the value of a header line.
pub fn read_split(line: &String) -> (r: Option<(String, String)>)
    ensures
        r is Some <==> split_header(line@) is Some,
        r matches Some((key, value)) ==> split_header(line@) == Some((key@, value@)),
{
    let chars = Text::new(line.as_str());
    proof {
        chars.lemma_fits();
    }
    match find_char(&chars, 0, ':') {
        Some(colon) => {
            let key = chars.string(0, colon);
            let value = trimmed(&chars, colon + 1, chars.len());
            Some((key, value))
        },
        None => None,
    }
}

/// The header at the front of the items: the title and the other entries.
fn read_header(stack: &mut Vec<Item>) -> (r: Option<(String, Table<String>)>)
    ensures
        r is Some <==> header(upcoming(old(stack)@), None, Map::empty()) is Some,
        r matches Some((title, extra)) ==> extra.wf() && header(
            upcoming(old(stack)@),
            None,
            Map::empty(),
        ) == Some((title@, extra_model(extra), upcoming(final(stack)@))) && final(stack)@.len()
            < old(stack)@.len(),
        final(stack)@.len() <= old(stack)@.len(),
{
    let mut title: Option<String> = None;
    let mut extra: Table<String> = Table::new();
    let ghost start = upcoming(stack@);
    proof {
        assert(extra_model(extra) =~= Map::<Seq<char>, Seq<char>>::empty()) by {
            assert forall|k: Seq<char>| !extra.has(k) by {
                assert(!extra.map().contains_key(k));
            }
        }
    }
    loop
        invariant
            stack@.len() <= old(stack)@.len(),
            start == upcoming(old(stack)@),
            extra.wf(),
            title is Some ==> stack@.len() < old(stack)@.len(),
            header(start, None, Map::empty()) == header(
                upcoming(stack@),
                match title {
                    Some(t) => Some(t@),
                    None => None,
                },
                extra_model(extra),
            ),
        decreases stack@.len(),
    {
        if stack.len() == 0 {
            return None;
        }
        proof {
            lemma_upcoming_pop(stack@);
        }
        match stack.pop().unwrap() {
            Item::HeaderEnd => {
                return match title {
                    Some(t) => Some((t, extra)),
                    None => None,
                };
            },
            Item::Text(line) => {
                match read_split(&line) {
                    Some((key, value)) => {
                        if is_word(&key, "title") {
                            if title.is_some() {
                                return None;
                            }
                            title = Some(value);
                        } else {
                            let ghost before = extra;
                            extra.insert(key, value);
                            assert(extra_model(extra) =~= extra_model(before).insert(key@, value@));
                        }
                    },
                    None => {
                        return None;
                    },
                }
            },
            _ => {
                return None;
            },
        }
    }
}

/// The node at the front of the items.
fn read_node(stack: &mut Vec<Item>) -> (r: Option<Node>)
    ensures
        r is Some <==> node(upcoming(old(stack)@)) is Some,
        r matches Some(n) ==> n.extra.wf() && node(upcoming(old(stack)@)) == Some(
            (n@, upcoming(final(stack)@)),
        ) && final(stack)@.len() < old(stack)@.len(),
{
    let (title, extra) = match read_header(stack) {
        None => {
            return None;
        },
        Some(found) => found,
    };
    let steps = match read_block(stack) {
        None => {
            return None;
        },
        Some(steps) => steps,
    };
    if stack.len() == 0 {
        return None;
    }
    proof {
        lemma_upcoming_pop(stack@);
    }
    match stack.pop().unwrap() {
        Item::NodeEnd => Some(Node { title: NodeName(title), extra, steps, visited: false }),
        _ => None,
    }
}

/// The nodes that the items make up.
fn read_nodes(stack: &mut Vec<Item>) -> (r: Option<Vec<Node>>)
    ensures
        r is Some <==> nodes(upcoming(old(stack)@)) is Some,
        r matches Some(found) ==> nodes(upcoming(old(stack)@)) == Some(node_models(found@))
            && forall|i: int| 0 <= i < found@.len() ==> (#[trigger] found@[i]).extra.wf(),
{
    let mut out: Vec<Node> = Vec::new();
    let ghost start = upcoming(stack@);
    assert(node_models(out@) =~= Seq::<NodeModel>::empty());
    loop
        invariant
            start == upcoming(old(stack)@),
            forall|i: int| 0 <= i < out@.len() ==> (#[trigger] out@[i]).extra.wf(),
            nodes(start) == (match nodes(upcoming(stack@)) {
                Some(rest) => Some(node_models(out@) + rest),
                None => None,
            }),
        decreases stack@.len(),
    {
        if stack.len() == 0 {
            assert(node_models(out@) + Seq::<NodeModel>::empty() =~= node_models(out@));
            return Some(out);
        }
        match read_node(stack) {
            None => {
                return None;
            },
            Some(n) => {
                proof {
                    assert(node_models(out@.push(n)) =~= node_models(out@) + seq![n@]);
                    match nodes(upcoming(stack@)) {
                        Some(rest) => {
                            assert(node_models(out@.push(n)) + rest =~= node_models(out@) + (seq![
                                n@,
                            ] + rest));
                        },
                        None => {},
                    }
                }
                out.push(n);
            },
        }
    }
}

/// Parses a script into its nodes.
pub fn parse_nodes_from_string(s: &str) -> (r: Result<Vec<Node>, ParseError>)
    ensures
        match parse_nodes(s@) {
            Some(models) => r matches Ok(found) && node_models(found@) == models && forall|i: int|
                0 <= i < found@.len() ==> (#[trigger] found@[i]).extra.wf(),
            None => r is Err,
        },
{
    let items = match scan_items(s) {
        Some(items) => items,
        None => {
            return Err(ParseError {  });
        },
    };
    let ghost scanned = items@;
    let mut stack = reversed(items);
    assert(upcoming(stack@) =~= item_models(scanned));
    match read_nodes(&mut stack) {
        Some(found) => Ok(found),
        None => Err(ParseError {  }),
    }
}

} // verus!
