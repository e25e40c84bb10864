//! The smallest script: one node that holds one line of dialogue.

use vstd::prelude::*;
use crate::ast::{ChoiceModel, StepModel};
use crate::engine::{EngineModel, EntryModel, PullModel, merged};
use crate::laws::law_single_line;
use crate::lexer::{
    CharClass, TokenModel, in_class, is_blank, is_digit, is_symbol, line_start, run_end, token_at,
};
use crate::node::NodeModel;
use crate::parse::{block, choices, header, node, nodes, parse_nodes, split_header, step};
use crate::scan::{
    ItemModel, Scanned, alone_on_line, first_at, item_at, items_from, line_end, trim, trimmed_len,
};

verus! {

/// A script of one node: a title, `---`, one line and `===`.
pub open spec fn minimal_script(title: Seq<char>, line: Seq<char>) -> Seq<char> {
    "title: "@ + title + "\n---\n"@ + line + "\n===\n"@
}

/// `t` holds no line end.
pub open spec fn one_line(t: Seq<char>) -> bool {
    forall|i: int| 0 <= i < t.len() ==> t[i] != '\n'
}

/// `t` is one line, not empty, without a blank at either end.
pub open spec fn tidy(t: Seq<char>) -> bool {
    &&& one_line(t)
    &&& t.len() > 0
    &&& !is_blank(t[0])
    &&& !is_blank(t.last())
}

/// `t` is one line that starts with a word.
pub open spec fn starts_with_word(t: Seq<char>) -> bool {
    &&& one_line(t)
    &&& t.len() > 0
    &&& in_class(CharClass::Word, t[0])
    &&& !is_digit(t[0])
}

/// A stretch of characters of one class that is followed by a character of
/// another, or by nothing, is a run.
pub proof fn lemma_run_to(s: Seq<char>, pos: nat, end: nat, class: CharClass)
    requires
        pos <= end <= s.len(),
        forall|i: int| pos <= i < end ==> in_class(class, #[trigger] s[i]),
        end < s.len() ==> !in_class(class, s[end as int]),
    ensures
        run_end(s, pos, class) == end,
    decreases end - pos,
{
    if pos < end {
        lemma_run_to(s, pos + 1, end, class);
    }
}

/// A run of word characters does not pass a line end.
pub proof fn lemma_word_inside_line(s: Seq<char>, pos: nat)
    requires
        pos <= s.len(),
    ensures
        pos <= run_end(s, pos, CharClass::Word) <= run_end(s, pos, CharClass::Line) <= s.len(),
    decreases s.len() - pos,
{
    if pos < s.len() && in_class(CharClass::Word, s[pos as int]) {
        lemma_word_inside_line(s, pos + 1);
    } else {
        crate::lexer::lemma_run_end(s, pos, CharClass::Line);
    }
}

/// The end of a line is the same from every position on the line.
pub proof fn lemma_same_line_end(s: Seq<char>, pos: nat, later: nat)
    requires
        pos <= later <= run_end(s, pos, CharClass::Line),
        pos <= s.len(),
    ensures
        run_end(s, later, CharClass::Line) == run_end(s, pos, CharClass::Line),
    decreases later - pos,
{
    if pos < later {
        crate::lexer::lemma_run_end(s, pos, CharClass::Line);
        lemma_same_line_end(s, pos + 1, later);
    }
}

/// A line that starts with a word is one text item: the line from its
/// first word to its end.
pub proof fn lemma_text_item(s: Seq<char>, pos: nat, start: nat)
    requires
        pos <= start < s.len(),
        run_end(s, pos, CharClass::Space) == start,
        in_class(CharClass::Word, s[start as int]),
        !is_digit(s[start as int]),
    ensures
        item_at(s, pos) == Scanned::Item(
            ItemModel::Text(s.subrange(start as int, line_end(s, start) as int)),
            line_end(s, start),
        ),
        start < line_end(s, start) <= s.len(),
{
    lemma_word_inside_line(s, start);
    let end = run_end(s, start, CharClass::Word);
    lemma_same_line_end(s, start, end);
    let stop = line_end(s, start);
    assert(s.subrange(start as int, end as int) + s.subrange(end as int, stop as int)
        =~= s.subrange(start as int, stop as int));
    assert(end > start) by {
        crate::lexer::lemma_run_end(s, start + 1, CharClass::Word);
    }
}

/// Three equal rule characters alone on a line.
pub proof fn lemma_rule_item(s: Seq<char>, pos: nat, start: nat, c: char)
    requires
        c == '-' || c == '=',
        pos <= start,
        start + 3 <= s.len(),
        run_end(s, pos, CharClass::Space) == start,
        start > 0,
        s[start - 1] == '\n',
        s[start as int] == c,
        s[start as int + 1] == c,
        s[start as int + 2] == c,
        start + 3 < s.len() ==> s[start as int + 3] == '\n',
    ensures
        item_at(s, pos) == Scanned::Item(
            if c == '-' {
                ItemModel::HeaderEnd
            } else {
                ItemModel::NodeEnd
            },
            start + 3,
        ),
{
    assert(is_symbol(c));
    assert(token_at(s, pos) == Some((TokenModel::Symbol(c), start + 1)));
    assert(line_start(s, start) == start);
    lemma_run_to(s, start, start, CharClass::Blank);
    lemma_run_to(s, start + 3, start + 3, CharClass::Blank);
    lemma_run_to(s, start + 3, start + 3, CharClass::Line);
    lemma_run_to(s, start + 2, start + 3, CharClass::Line);
    assert(alone_on_line(s, start, 3));
    assert(line_end(s, (start + 1 + 2) as nat) == start + 3);
}

/// What stands where in a minimal script.
#[verifier::opaque]
pub open spec fn laid_out(s: Seq<char>, title: Seq<char>, line: Seq<char>) -> bool {
    let n = title.len() as int;
    let m = line.len() as int;
    &&& s.len() == 17 + n + m
    &&& s[0] == 't' && s[1] == 'i' && s[2] == 't' && s[3] == 'l' && s[4] == 'e' && s[5] == ':'
        && s[6] == ' '
    &&& forall|i: int| 0 <= i < n ==> #[trigger] s[7 + i] == title[i]
    &&& s[7 + n] == '\n' && s[8 + n] == '-' && s[9 + n] == '-' && s[10 + n] == '-' && s[11 + n]
        == '\n'
    &&& forall|i: int| 0 <= i < m ==> #[trigger] s[12 + n + i] == line[i]
    &&& s[12 + n + m] == '\n' && s[13 + n + m] == '=' && s[14 + n + m] == '=' && s[15 + n + m]
        == '=' && s[16 + n + m] == '\n'
}

proof fn lemma_laid_out(title: Seq<char>, line: Seq<char>)
    ensures
        laid_out(minimal_script(title, line), title, line),
        minimal_script(title, line).subrange(0, 7 + title.len() as int) == "title: "@ + title,
{
    reveal_strlit("title: ");
    reveal_strlit("\n---\n");
    reveal_strlit("\n===\n");
    reveal(laid_out);
    let s = minimal_script(title, line);
    assert(s.subrange(0, 7 + title.len() as int) =~= "title: "@ + title);
}

proof fn lemma_title_item(s: Seq<char>, title: Seq<char>, line: Seq<char>)
    requires
        laid_out(s, title, line),
        one_line(title),
    ensures
        item_at(s, 0) == Scanned::Item(
            ItemModel::Text(s.subrange(0, 7 + title.len() as int)),
            (7 + title.len()) as nat,
        ),
{
    reveal(laid_out);
    let n = title.len() as int;
    lemma_run_to(s, 0, 0, CharClass::Space);
    assert forall|i: int| 0 <= i < 7 + n implies in_class(CharClass::Line, #[trigger] s[i]) by {
        if i >= 7 {
            assert(s[7 + (i - 7)] == title[i - 7]);
        }
    }
    lemma_run_to(s, 0, (7 + n) as nat, CharClass::Line);
    lemma_text_item(s, 0, 0);
}

proof fn lemma_header_end_item(s: Seq<char>, title: Seq<char>, line: Seq<char>)
    requires
        laid_out(s, title, line),
    ensures
        item_at(s, (7 + title.len()) as nat) == Scanned::Item(
            ItemModel::HeaderEnd,
            (11 + title.len()) as nat,
        ),
{
    reveal(laid_out);
    let p1 = (7 + title.len()) as nat;
    lemma_run_to(s, p1, p1 + 1, CharClass::Space);
    lemma_rule_item(s, p1, p1 + 1, '-');
}

proof fn lemma_line_item(s: Seq<char>, title: Seq<char>, line: Seq<char>)
    requires
        laid_out(s, title, line),
        starts_with_word(line),
    ensures
        item_at(s, (11 + title.len()) as nat) == Scanned::Item(
            ItemModel::Text(line),
            (12 + title.len() + line.len()) as nat,
        ),
{
    reveal(laid_out);
    let n = title.len() as int;
    let m = line.len() as int;
    let p2 = (11 + n) as nat;
    let start = (12 + n) as nat;
    let p3 = (12 + n + m) as nat;
    assert(s[start as int] == line[0]) by {
        assert(s[12 + n + 0] == line[0]);
    }
    lemma_run_to(s, p2, start, CharClass::Space);
    assert forall|i: int| start <= i < p3 implies in_class(CharClass::Line, #[trigger] s[i]) by {
        assert(s[12 + n + (i - start)] == line[i - start]);
    }
    lemma_run_to(s, start, p3, CharClass::Line);
    lemma_text_item(s, p2, start);
    assert(s.subrange(start as int, p3 as int) =~= line) by {
        assert forall|i: int| 0 <= i < m implies s.subrange(start as int, p3 as int)[i]
            == line[i] by {
            assert(s[12 + n + i] == line[i]);
        }
    }
}

proof fn lemma_node_end_item(s: Seq<char>, title: Seq<char>, line: Seq<char>)
    requires
        laid_out(s, title, line),
    ensures
        item_at(s, (12 + title.len() + line.len()) as nat) == Scanned::Item(
            ItemModel::NodeEnd,
            (16 + title.len() + line.len()) as nat,
        ),
        item_at(s, (16 + title.len() + line.len()) as nat) == Scanned::End,
        s.len() == 17 + title.len() + line.len(),
{
    reveal(laid_out);
    let p3 = (12 + title.len() + line.len()) as nat;
    lemma_run_to(s, p3, p3 + 1, CharClass::Space);
    lemma_rule_item(s, p3, p3 + 1, '=');
    let p4 = p3 + 4;
    lemma_run_to(s, p4, p4 + 1, CharClass::Space);
}

/// One item and the items behind it are the items from where it starts.
pub proof fn lemma_items_step(
    s: Seq<char>,
    pos: nat,
    item: ItemModel,
    next: nat,
    rest: Seq<ItemModel>,
)
    requires
        item_at(s, pos) == Scanned::Item(item, next),
        pos < next <= s.len(),
        items_from(s, next) == Some(rest),
    ensures
        items_from(s, pos) == Some(seq![item] + rest),
{
}

/// Four items and the end of the script are the items of the script.
proof fn lemma_four_items(
    s: Seq<char>,
    a: ItemModel,
    p1: nat,
    b: ItemModel,
    p2: nat,
    c: ItemModel,
    p3: nat,
    d: ItemModel,
    p4: nat,
)
    requires
        0 < p1 < p2 < p3 < p4 <= s.len(),
        item_at(s, 0) == Scanned::Item(a, p1),
        item_at(s, p1) == Scanned::Item(b, p2),
        item_at(s, p2) == Scanned::Item(c, p3),
        item_at(s, p3) == Scanned::Item(d, p4),
        item_at(s, p4) == Scanned::End,
    ensures
        items_from(s, 0) == Some(seq![a, b, c, d]),
{
    let i4 = Seq::<ItemModel>::empty();
    let i3 = seq![d] + i4;
    let i2 = seq![c] + i3;
    let i1 = seq![b] + i2;
    let i0 = seq![a] + i1;
    assert(items_from(s, p4) == Some(i4));
    lemma_items_step(s, p3, d, p4, i4);
    lemma_items_step(s, p2, c, p3, i3);
    lemma_items_step(s, p1, b, p2, i2);
    lemma_items_step(s, 0, a, p1, i1);
    assert(i0 =~= seq![a, b, c, d]);
}

/// The items of a minimal script: the title line, `---`, the line of
/// dialogue and `===`.
pub proof fn lemma_minimal_items(title: Seq<char>, line: Seq<char>)
    requires
        one_line(title),
        starts_with_word(line),
    ensures
        items_from(minimal_script(title, line), 0) == Some(
            seq![
                ItemModel::Text("title: "@ + title),
                ItemModel::HeaderEnd,
                ItemModel::Text(line),
                ItemModel::NodeEnd,
            ],
        ),
{
    let s = minimal_script(title, line);
    lemma_laid_out(title, line);
    lemma_title_item(s, title, line);
    lemma_header_end_item(s, title, line);
    lemma_line_item(s, title, line);
    lemma_node_end_item(s, title, line);
    lemma_four_items(
        s,
        ItemModel::Text("title: "@ + title),
        (7 + title.len()) as nat,
        ItemModel::HeaderEnd,
        (11 + title.len()) as nat,
        ItemModel::Text(line),
        (12 + title.len() + line.len()) as nat,
        ItemModel::NodeEnd,
        (16 + title.len() + line.len()) as nat,
    );
}

/// The first `c` behind a stretch without one is the first from the start
/// of the stretch.
pub proof fn lemma_first_at(s: Seq<char>, pos: nat, found: nat, c: char)
    requires
        pos <= found < s.len(),
        forall|i: int| pos <= i < found ==> #[trigger] s[i] != c,
        s[found as int] == c,
    ensures
        first_at(s, pos, c) == Some(found),
    decreases found - pos,
{
    if pos < found {
        lemma_first_at(s, pos + 1, found, c);
    }
}

/// Trimming takes one blank off the front of a tidy text and nothing
/// else.
pub proof fn lemma_trim_tidy(t: Seq<char>)
    requires
        tidy(t),
    ensures
        trim(seq![' '] + t) == t,
{
    let padded = seq![' '] + t;
    assert(padded[0] == ' ');
    assert(padded[1] == t[0]);
    assert(padded.last() == t.last());
    lemma_run_to(padded, 1, 1, CharClass::Blank);
    assert(run_end(padded, 0, CharClass::Blank) == 1);
    assert(trimmed_len(padded) == padded.len());
    assert(padded.subrange(1, padded.len() as int) =~= t);
}

/// The title line of a minimal script gives the key `title` and the
/// title.
proof fn lemma_title_line(title: Seq<char>)
    requires
        tidy(title),
    ensures
        split_header("title: "@ + title) == Some(("title"@, title)),
{
    reveal_strlit("title: ");
    reveal_strlit("title");
    let line = "title: "@ + title;
    assert(line[0] == 't' && line[1] == 'i' && line[2] == 't' && line[3] == 'l' && line[4] == 'e'
        && line[5] == ':');
    lemma_first_at(line, 0, 5, ':');
    assert(line.subrange(0, 5) =~= "title"@);
    assert(line.subrange(6, line.len() as int) =~= seq![' '] + title);
    lemma_trim_tidy(title);
}

/// A header of a title line and `---`.
proof fn lemma_minimal_header(first: Seq<char>, title: Seq<char>, rest: Seq<ItemModel>)
    requires
        split_header(first) == Some(("title"@, title)),
    ensures
        header(
            seq![ItemModel::Text(first), ItemModel::HeaderEnd] + rest,
            None,
            Map::empty(),
        ) == Some((title, Map::<Seq<char>, Seq<char>>::empty(), rest)),
{
    let items = seq![ItemModel::Text(first), ItemModel::HeaderEnd] + rest;
    let after = items.drop_first();
    assert(items[0] == ItemModel::Text(first));
    assert(after[0] == ItemModel::HeaderEnd);
    assert(after.drop_first() =~= rest);
    assert(header(after, Some(title), Map::empty()) == Some(
        (title, Map::<Seq<char>, Seq<char>>::empty(), rest),
    ));
}

/// A body of one line of text, closed by `===`.
proof fn lemma_minimal_body(line: Seq<char>)
    ensures
        block(seq![ItemModel::Text(line), ItemModel::NodeEnd]) == Some(
            (
                seq![StepModel::Dialogue(line, Seq::<ChoiceModel>::empty())],
                seq![ItemModel::NodeEnd],
            ),
        ),
{
    let items = seq![ItemModel::Text(line), ItemModel::NodeEnd];
    let closing = seq![ItemModel::NodeEnd];
    assert(items.drop_first() =~= closing);
    assert(closing[0] == ItemModel::NodeEnd);
    assert(choices(closing) == (Seq::<ChoiceModel>::empty(), closing));
    let said = StepModel::Dialogue(line, Seq::<ChoiceModel>::empty());
    assert(step(items) == Some((said, closing)));
    assert(block(closing) == Some((Seq::<StepModel>::empty(), closing)));
    assert(seq![said] + Seq::<StepModel>::empty() =~= seq![said]);
}

/// The node that a minimal script holds.
pub open spec fn minimal_node(title: Seq<char>, line: Seq<char>) -> NodeModel {
    NodeModel {
        title,
        extra: Map::empty(),
        steps: seq![StepModel::Dialogue(line, Seq::<ChoiceModel>::empty())],
        visited: false,
    }
}

proof fn lemma_minimal_nodes(first: Seq<char>, title: Seq<char>, line: Seq<char>)
    requires
        split_header(first) == Some(("title"@, title)),
    ensures
        nodes(
            seq![
                ItemModel::Text(first),
                ItemModel::HeaderEnd,
                ItemModel::Text(line),
                ItemModel::NodeEnd,
            ],
        ) == Some(seq![minimal_node(title, line)]),
{
    let items = seq![
        ItemModel::Text(first),
        ItemModel::HeaderEnd,
        ItemModel::Text(line),
        ItemModel::NodeEnd,
    ];
    let body = seq![ItemModel::Text(line), ItemModel::NodeEnd];
    assert(items =~= seq![ItemModel::Text(first), ItemModel::HeaderEnd] + body);
    lemma_minimal_header(first, title, body);
    lemma_minimal_body(line);
    let closing = seq![ItemModel::NodeEnd];
    assert(closing[0] == ItemModel::NodeEnd);
    assert(closing.drop_first() =~= Seq::<ItemModel>::empty());
    let made = minimal_node(title, line);
    assert(node(items) == Some((made, Seq::<ItemModel>::empty())));
    assert(nodes(Seq::<ItemModel>::empty()) == Some(Seq::<NodeModel>::empty()));
    assert(seq![made] + Seq::<NodeModel>::empty() =~= seq![made]);
}

/// A minimal script parses into its one node: the title, no other header
/// entry, and the line as the only step.
pub proof fn law_minimal_script_parses(title: Seq<char>, line: Seq<char>)
    requires
        tidy(title),
        starts_with_word(line),
    ensures
        parse_nodes(minimal_script(title, line)) == Some(seq![minimal_node(title, line)]),
{
    lemma_minimal_items(title, line);
    lemma_title_line(title);
    lemma_minimal_nodes("title: "@ + title, title, line);
}

/// Round trip: after loading a minimal script into any engine and
/// activating its node, the first pull says the line, the second reports
/// the end of the conversation, and nothing comes after that.
pub proof fn law_minimal_round_trip(m: EngineModel, title: Seq<char>, line: Seq<char>)
    requires
        tidy(title),
        starts_with_word(line),
    ensures
        parse_nodes(minimal_script(title, line)) matches Some(added) && ({
            let first = m.loaded(added).activated(title).stepped();
            let second = first.0.stepped();
            let third = second.0.stepped();
            &&& first.1 == PullModel::Entry(EntryModel::Say(line))
            &&& second.1 == PullModel::Entry(EntryModel::EndConversation)
            &&& third.1 == PullModel::Idle
        }),
{
    law_minimal_script_parses(title, line);
    let made = minimal_node(title, line);
    let added = seq![made];
    assert(added.drop_last() =~= Seq::<NodeModel>::empty());
    assert(added.last() == made);
    assert(merged(m.nodes, added) == m.nodes.insert(title, made)) by {
        reveal_with_fuel(merged, 2);
    }
    law_single_line(m.loaded(added), title, line);
}

} // verus!
