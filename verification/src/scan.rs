//! The items of a script.
//!
//! A script is a sequence of items, each recognised by its first token:
//!
//! * a word starts a line of text, which runs to the end of the line;
//! * `<<` opens a command, which runs to the next `>>` on the line;
//! * `[[` opens a link, which runs to the next `]]` on the line and holds a
//!   target, or a text, `|` and a target;
//! * `->` starts a shortcut option: its text, and optionally a condition
//!   between `<<` and `>>`;
//! * `---` alone on a line ends a header, `===` alone on a line ends a node.
//!
//! The text of a command decides what it is: `if `, `elseif `, `else`,
//! `endif` and `set ` are the engine's own, anything else is passed to the
//! host as it stands.

use vstd::prelude::*;
use crate::ast::{Expr, ExprModel, NodeName, VariableName};
use crate::expression::{parse_expr, parse_expression, read_expr, read_expression};
use crate::lexer::{
    CharClass, Lexer, Token, TokenModel, blank, is_blank, lemma_token_at, line_start, run_end,
    scan_run, start_of_line, token_at, token_models, tokenize, tokens_from,
};
use crate::text::{Text, chars_of};

verus! {

/// One item of a script.
#[derive(Debug, PartialEq)]
pub enum Item {
    /// A line that starts with a word: a header entry or a line of
    /// dialogue.
    Text(String),
    /// A command for the host.
    Command(String),
    If(Expr),
    ElseIf(Expr),
    Else,
    EndIf,
    Assign(VariableName, Expr),
    /// A link to a node, with the text to show for it if it has one.
    Link(Option<String>, NodeName),
    /// A shortcut option with its condition, if it has one.
    Shortcut(String, Option<Expr>),
    /// `---`
    HeaderEnd,
    /// `===`
    NodeEnd,
}

pub ghost enum ItemModel {
    Text(Seq<char>),
    Command(Seq<char>),
    If(ExprModel),
    ElseIf(ExprModel),
    Else,
    EndIf,
    Assign(Seq<char>, ExprModel),
    Link(Option<Seq<char>>, Seq<char>),
    Shortcut(Seq<char>, Option<ExprModel>),
    HeaderEnd,
    NodeEnd,
}

impl View for Item {
    type V = ItemModel;

    open spec fn view(&self) -> ItemModel {
        match self {
            Item::Text(t) => ItemModel::Text(t@),
            Item::Command(t) => ItemModel::Command(t@),
            Item::If(e) => ItemModel::If(e@),
            Item::ElseIf(e) => ItemModel::ElseIf(e@),
            Item::Else => ItemModel::Else,
            Item::EndIf => ItemModel::EndIf,
            Item::Assign(n, e) => ItemModel::Assign(n@, e@),
            Item::Link(Some(t), n) => ItemModel::Link(Some(t@), n@),
            Item::Link(None, n) => ItemModel::Link(None, n@),
            Item::Shortcut(t, Some(e)) => ItemModel::Shortcut(t@, Some(e@)),
            Item::Shortcut(t, None) => ItemModel::Shortcut(t@, None),
            Item::HeaderEnd => ItemModel::HeaderEnd,
            Item::NodeEnd => ItemModel::NodeEnd,
        }
    }
}

/// What a list of items stands for.
pub open spec fn item_models(items: Seq<Item>) -> Seq<ItemModel> {
    Seq::new(items.len(), |i: int| items[i]@)
}

/// What scanning at a position finds: an item with the position behind it,
/// the end of the script, or something that is no item.
pub ghost enum Scanned {
    Item(ItemModel, nat),
    End,
    Error,
}

/// Whether the character at `pos` is `c`.
pub open spec fn char_at(s: Seq<char>, pos: nat, c: char) -> bool {
    pos < s.len() && s[pos as int] == c
}

/// The end of the line that holds `pos`.
pub open spec fn line_end(s: Seq<char>, pos: nat) -> nat {
    run_end(s, pos, CharClass::Line)
}

/// The first position at or after `pos`, on the line of `pos`, where `c`
/// stands twice in a row.
pub open spec fn pair_at(s: Seq<char>, pos: nat, c: char) -> Option<nat>
    decreases s.len() - pos,
{
    if pos + 1 >= s.len() || s[pos as int] == '\n' {
        None
    } else if s[pos as int] == c && s[pos as int + 1] == c {
        Some(pos)
    } else {
        pair_at(s, pos + 1, c)
    }
}

/// The first position at or after `pos` where `c` stands.
pub open spec fn first_at(s: Seq<char>, pos: nat, c: char) -> Option<nat>
    decreases s.len() - pos,
{
    if pos >= s.len() {
        None
    } else if s[pos as int] == c {
        Some(pos)
    } else {
        first_at(s, pos + 1, c)
    }
}

/// The length of `t` without the blanks at its end.
pub open spec fn trimmed_len(t: Seq<char>) -> nat
    decreases t.len(),
{
    if t.len() > 0 && is_blank(t.last()) {
        trimmed_len(t.drop_last())
    } else {
        t.len()
    }
}

/// `t` without the blanks at its start and at its end.
pub open spec fn trim(t: Seq<char>) -> Seq<char> {
    let from = run_end(t, 0, CharClass::Blank);
    let to = trimmed_len(t);
    if from < to {
        t.subrange(from as int, to as int)
    } else {
        Seq::empty()
    }
}

/// Whether `t` begins with `prefix`.
pub open spec fn starts_with(t: Seq<char>, prefix: Seq<char>) -> bool {
    t.len() >= prefix.len() && t.subrange(0, prefix.len() as int) == prefix
}

/// Whether the `n` characters at `pos` have their line to themselves: only
/// blanks stand before them and behind them on it.
pub open spec fn alone_on_line(s: Seq<char>, pos: nat, n: nat) -> bool {
    &&& run_end(s, line_start(s, pos), CharClass::Blank) == pos
    &&& run_end(s, pos + n, CharClass::Blank) == line_end(s, pos + n)
}

/// The assignment that the text behind `set ` makes: `$`, a name and an
/// expression.
pub open spec fn assignment(text: Seq<char>) -> Option<ItemModel> {
    let ts = tokens_from(text, 0);
    if ts.len() >= 2 && ts[0] == TokenModel::Symbol('$') {
        match ts[1] {
            TokenModel::Word(name) => match parse_expr(ts, 2) {
                Some((e, end)) => if end == ts.len() {
                    Some(ItemModel::Assign(name, e))
                } else {
                    None
                },
                None => None,
            },
            _ => None,
        }
    } else {
        None
    }
}

/// What the text between `<<` and `>>` is.
pub open spec fn classify(t: Seq<char>) -> Option<ItemModel> {
    if starts_with(t, "if "@) {
        match parse_expression(t.skip(3)) {
            Some(e) => Some(ItemModel::If(e)),
            None => None,
        }
    } else if starts_with(t, "elseif "@) {
        match parse_expression(t.skip(7)) {
            Some(e) => Some(ItemModel::ElseIf(e)),
            None => None,
        }
    } else if t == "else"@ {
        Some(ItemModel::Else)
    } else if t == "endif"@ {
        Some(ItemModel::EndIf)
    } else if starts_with(t, "set "@) {
        assignment(t.skip(4))
    } else {
        Some(ItemModel::Command(t))
    }
}

/// What the text between `[[` and `]]` is: a text, `|` and a target, or a
/// target alone.
pub open spec fn link(t: Seq<char>) -> ItemModel {
    match first_at(t, 0, '|') {
        Some(bar) => ItemModel::Link(
            Some(t.subrange(0, bar as int)),
            t.subrange(bar as int + 1, t.len() as int),
        ),
        None => ItemModel::Link(None, t),
    }
}

/// A shortcut option whose text starts at `pos`, behind `->`.
pub open spec fn shortcut_at(s: Seq<char>, pos: nat) -> Scanned {
    match pair_at(s, pos, '<') {
        Some(open) => match pair_at(s, open + 2, '>') {
            Some(close) => match parse_expression(s.subrange(open as int + 2, close as int)) {
                Some(e) => Scanned::Item(
                    ItemModel::Shortcut(trim(s.subrange(pos as int, open as int)), Some(e)),
                    close + 2,
                ),
                None => Scanned::Error,
            },
            None => Scanned::Error,
        },
        None => Scanned::Item(
            ItemModel::Shortcut(trim(s.subrange(pos as int, line_end(s, pos) as int)), None),
            line_end(s, pos),
        ),
    }
}

/// What follows a symbol `c` that ended at `pos`, as an item.
pub open spec fn symbol_item(s: Seq<char>, c: char, pos: nat) -> Scanned {
    if c == '<' {
        if char_at(s, pos, '<') {
            match pair_at(s, pos + 1, '>') {
                Some(close) => match classify(s.subrange(pos as int + 1, close as int)) {
                    Some(item) => Scanned::Item(item, close + 2),
                    None => Scanned::Error,
                },
                None => Scanned::Error,
            }
        } else {
            Scanned::Error
        }
    } else if c == '[' {
        if char_at(s, pos, '[') {
            match pair_at(s, pos + 1, ']') {
                Some(close) => Scanned::Item(link(s.subrange(pos as int + 1, close as int)), close + 2),
                None => Scanned::Error,
            }
        } else {
            Scanned::Error
        }
    } else if c == '-' {
        if char_at(s, pos, '>') {
            shortcut_at(s, pos + 1)
        } else if pos >= 1 && char_at(s, pos, '-') && char_at(s, pos + 1, '-') && alone_on_line(
            s,
            (pos - 1) as nat,
            3,
        ) {
            Scanned::Item(ItemModel::HeaderEnd, line_end(s, pos + 2))
        } else {
            Scanned::Error
        }
    } else if c == '=' {
        if pos >= 1 && char_at(s, pos, '=') && char_at(s, pos + 1, '=') && alone_on_line(
            s,
            (pos - 1) as nat,
            3,
        ) {
            Scanned::Item(ItemModel::NodeEnd, line_end(s, pos + 2))
        } else {
            Scanned::Error
        }
    } else {
        Scanned::Error
    }
}

/// The item that starts with the first token at or after `pos`.
pub open spec fn item_at(s: Seq<char>, pos: nat) -> Scanned {
    match token_at(s, pos) {
        None => Scanned::End,
        Some((TokenModel::Word(w), end)) => Scanned::Item(
            ItemModel::Text(w + s.subrange(end as int, line_end(s, end) as int)),
            line_end(s, end),
        ),
        Some((TokenModel::Number(_), _)) => Scanned::Error,
        Some((TokenModel::Symbol(c), end)) => symbol_item(s, c, end),
    }
}

/// All items from `pos` to the end of the script; `None` where something
/// is no item.
pub open spec fn items_from(s: Seq<char>, pos: nat) -> Option<Seq<ItemModel>>
    decreases s.len() - pos,
{
    match item_at(s, pos) {
        Scanned::End => Some(Seq::empty()),
        Scanned::Error => None,
        Scanned::Item(item, next) => if pos < next <= s.len() {
            match items_from(s, next) {
                Some(rest) => Some(seq![item] + rest),
                None => None,
            }
        } else {
            None
        },
    }
}

/// What scanning found.
#[derive(Debug)]
pub enum Scan {
    Item(Item),
    End,
    Error,
}

/// The first position at or after `pos`, on the line of `pos`, where `c`
/// stands twice in a row.
pub fn find_pair(chars: &Text, pos: usize, c: char) -> (r: Option<usize>)
    requires
        pos <= chars@.len(),
    ensures
        r is Some <==> pair_at(chars@, pos as nat, c) is Some,
        r matches Some(q) ==> pair_at(chars@, pos as nat, c) == Some(q as nat) && pos <= q && q + 1
            < chars@.len(),
{
    let mut i: usize = pos;
    loop
        invariant
            pos <= i <= chars@.len(),
            pair_at(chars@, i as nat, c) == pair_at(chars@, pos as nat, c),
        decreases chars@.len() - i,
    {
        if i >= chars.len() || i + 1 >= chars.len() || chars.at(i) == '\n' {
            return None;
        }
        if chars.at(i) == c && chars.at(i + 1) == c {
            return Some(i);
        }
        i += 1;
    }
}

/// The first position at or after `pos` where `c` stands.
pub fn find_char(chars: &Text, pos: usize, c: char) -> (r: Option<usize>)
    requires
        pos <= chars@.len(),
    ensures
        r is Some <==> first_at(chars@, pos as nat, c) is Some,
        r matches Some(q) ==> first_at(chars@, pos as nat, c) == Some(q as nat) && pos <= q
            < chars@.len(),
{
    let mut i: usize = pos;
    while i < chars.len()
        invariant
            pos <= i <= chars@.len(),
            first_at(chars@, i as nat, c) == first_at(chars@, pos as nat, c),
        decreases chars@.len() - i,
    {
        if chars.at(i) == c {
            return Some(i);
        }
        i += 1;
    }
    None
}

/// The characters from `from` up to `to` without the blanks at their start
/// and end.
pub fn trimmed(chars: &Text, from: usize, to: usize) -> (r: String)
    requires
        from <= to <= chars@.len(),
    ensures
        r@ == trim(chars@.subrange(from as int, to as int)),
{
    let t = chars.slice(from, to);
    let start = scan_run(&t, 0, CharClass::Blank);
    let mut end: usize = t.len();
    assert(t@.take(end as int) =~= t@);
    while end > 0 && blank(t.at(end - 1))
        invariant
            end <= t@.len(),
            trimmed_len(t@.take(end as int)) == trimmed_len(t@),
        decreases end,
    {
        assert(t@.take(end as int).drop_last() =~= t@.take(end as int - 1));
        end -= 1;
    }
    assert(trimmed_len(t@.take(end as int)) == end);
    if start < end {
        t.string(start, end)
    } else {
        String::new()
    }
}

/// Whether `chars` begins with `prefix`.
pub fn begins_with(chars: &Text, prefix: &str) -> (r: bool)
    ensures
        r == starts_with(chars@, prefix@),
{
    let p = chars_of(prefix);
    if chars.len() < p.len() {
        return false;
    }
    let mut i: usize = 0;
    while i < p.len()
        invariant
            i <= p.len() <= chars@.len(),
            p@ == prefix@,
            forall|j: int| 0 <= j < i ==> chars@[j] == p@[j],
        decreases p.len() - i,
    {
        if chars.at(i) != p[i] {
            assert(chars@.subrange(0, p@.len() as int)[i as int] != p@[i as int]);
            return false;
        }
        i += 1;
    }
    assert(chars@.subrange(0, p@.len() as int) =~= p@);
    true
}

/// Whether `chars` is exactly `literal`.
pub fn is_text(chars: &Text, literal: &str) -> (r: bool)
    ensures
        r == (chars@ == literal@),
{
    let p = chars_of(literal);
    if chars.len() != p.len() {
        return false;
    }
    let same = begins_with(chars, literal);
    assert(chars@.subrange(0, chars@.len() as int) =~= chars@);
    same
}

/// The assignment that the text behind `set ` makes.
pub fn read_assignment(chars: &Text) -> (r: Option<Item>)
    ensures
        r is Some <==> assignment(chars@) is Some,
        r matches Some(item) ==> assignment(chars@) == Some(item@),
{
    let ts = tokenize(chars);
    if ts.len() < 2 {
        return None;
    }
    assert(token_models(ts@)[0] == ts@[0]@);
    assert(token_models(ts@)[1] == ts@[1]@);
    match &ts[0] {
        Token::Symbol(c) => {
            if *c != '$' {
                return None;
            }
        },
        _ => {
            return None;
        },
    }
    match &ts[1] {
        Token::Word(name) => {
            match read_expr(&ts, 2) {
                Some((e, end)) => {
                    if end == ts.len() {
                        Some(Item::Assign(VariableName(name.clone()), e))
                    } else {
                        None
                    }
                },
                None => None,
            }
        },
        _ => None,
    }
}

/// What the text between `<<` and `>>` is.
pub fn classify_command(chars: &Text) -> (r: Option<Item>)
    ensures
        r is Some <==> classify(chars@) is Some,
        r matches Some(item) ==> classify(chars@) == Some(item@),
{
    proof {
        reveal_strlit("if ");
        reveal_strlit("elseif ");
        reveal_strlit("set ");
    }
    let n = chars.len();
    if begins_with(chars, "if ") {
        let rest = chars.slice(3, n);
        assert(rest@ =~= chars@.skip(3));
        match read_expression(&rest) {
            Some(e) => Some(Item::If(e)),
            None => None,
        }
    } else if begins_with(chars, "elseif ") {
        let rest = chars.slice(7, n);
        assert(rest@ =~= chars@.skip(7));
        match read_expression(&rest) {
            Some(e) => Some(Item::ElseIf(e)),
            None => None,
        }
    } else if is_text(chars, "else") {
        Some(Item::Else)
    } else if is_text(chars, "endif") {
        Some(Item::EndIf)
    } else if begins_with(chars, "set ") {
        let rest = chars.slice(4, n);
        assert(rest@ =~= chars@.skip(4));
        read_assignment(&rest)
    } else {
        assert(chars@.subrange(0, n as int) =~= chars@);
        Some(Item::Command(chars.string(0, n)))
    }
}

/// What the text between `[[` and `]]` is.
pub fn read_link(chars: &Text) -> (r: Item)
    ensures
        r@ == link(chars@),
{
    let n = chars.len();
    match find_char(chars, 0, '|') {
        Some(bar) => Item::Link(
            Some(chars.string(0, bar)),
            NodeName(chars.string(bar + 1, n)),
        ),
        None => {
            assert(chars@.subrange(0, n as int) =~= chars@);
            Item::Link(None, NodeName(chars.string(0, n)))
        },
    }
}

/// Whether the `n` characters at `pos` have their line to themselves.
pub fn is_alone(chars: &Text, pos: usize, n: usize) -> (r: bool)
    requires
        pos + n <= chars@.len(),
    ensures
        r == alone_on_line(chars@, pos as nat, n as nat),
{
    proof {
        chars.lemma_fits();
    }
    let start = start_of_line(chars, pos);
    if scan_run(chars, start, CharClass::Blank) != pos {
        return false;
    }
    scan_run(chars, pos + n, CharClass::Blank) == scan_run(chars, pos + n, CharClass::Line)
}

/// Scans a shortcut option whose text starts at the lexer's position.
fn scan_shortcut(lexer: &mut Lexer) -> (r: Scan)
    requires
        old(lexer).wf(),
    ensures
        final(lexer).wf(),
        final(lexer).text() == old(lexer).text(),
        shortcut_at(old(lexer).text(), old(lexer).position()) == (match r {
            Scan::Item(item) => Scanned::Item(item@, final(lexer).position()),
            Scan::End => Scanned::End,
            Scan::Error => Scanned::Error,
        }),
        r is Item ==> old(lexer).position() <= final(lexer).position(),
{
    proof {
        lexer.lemma_fields();
        lexer.chars.lemma_fits();
    }
    let pos = lexer.pos;
    match find_pair(&lexer.chars, pos, '<') {
        Some(open) => {
            match find_pair(&lexer.chars, open + 2, '>') {
                Some(close) => {
                    let inner = lexer.chars.slice(open + 2, close);
                    match read_expression(&inner) {
                        Some(e) => {
                            let text = trimmed(&lexer.chars, pos, open);
                            lexer.pos = close + 2;
                            proof {
                                lexer.lemma_fields();
                            }
                            Scan::Item(Item::Shortcut(text, Some(e)))
                        },
                        None => Scan::Error,
                    }
                },
                None => Scan::Error,
            }
        },
        None => {
            let end = scan_run(&lexer.chars, pos, CharClass::Line);
            let text = trimmed(&lexer.chars, pos, end);
            lexer.pos = end;
            proof {
                lexer.lemma_fields();
            }
            Scan::Item(Item::Shortcut(text, None))
        },
    }
}

/// Scans what follows the symbol `c` that the lexer has just consumed.
fn scan_symbol(lexer: &mut Lexer, c: char) -> (r: Scan)
    requires
        old(lexer).wf(),
    ensures
        final(lexer).wf(),
        final(lexer).text() == old(lexer).text(),
        symbol_item(old(lexer).text(), c, old(lexer).position()) == (match r {
            Scan::Item(item) => Scanned::Item(item@, final(lexer).position()),
            Scan::End => Scanned::End,
            Scan::Error => Scanned::Error,
        }),
        r is Item ==> old(lexer).position() <= final(lexer).position(),
{
    proof {
        lexer.lemma_fields();
    }
    let pos = lexer.pos;
    let n = lexer.chars.len();
    if c == '<' {
        if pos < n && lexer.chars.at(pos) == '<' {
            match find_pair(&lexer.chars, pos + 1, '>') {
                Some(close) => {
                    let inner = lexer.chars.slice(pos + 1, close);
                    match classify_command(&inner) {
                        Some(item) => {
                            lexer.pos = close + 2;
                            proof {
                                lexer.lemma_fields();
                            }
                            Scan::Item(item)
                        },
                        None => Scan::Error,
                    }
                },
                None => Scan::Error,
            }
        } else {
            Scan::Error
        }
    } else if c == '[' {
        if pos < n && lexer.chars.at(pos) == '[' {
            match find_pair(&lexer.chars, pos + 1, ']') {
                Some(close) => {
                    let inner = lexer.chars.slice(pos + 1, close);
                    let item = read_link(&inner);
                    lexer.pos = close + 2;
                    proof {
                        lexer.lemma_fields();
                    }
                    Scan::Item(item)
                },
                None => Scan::Error,
            }
        } else {
            Scan::Error
        }
    } else if c == '-' || c == '=' {
        if c == '-' && pos < n && lexer.chars.at(pos) == '>' {
            lexer.pos = pos + 1;
            proof {
                lexer.lemma_fields();
            }
            scan_shortcut(lexer)
        } else if pos >= 1 && pos < n && pos + 1 < n && lexer.chars.at(pos) == c && lexer.chars.at(pos + 1) == c
            && is_alone(&lexer.chars, pos - 1, 3) {
            let end = scan_run(&lexer.chars, pos + 2, CharClass::Line);
            lexer.pos = end;
            proof {
                lexer.lemma_fields();
            }
            if c == '-' {
                Scan::Item(Item::HeaderEnd)
            } else {
                Scan::Item(Item::NodeEnd)
            }
        } else {
            Scan::Error
        }
    } else {
        Scan::Error
    }
}

/// Scans the next item.
pub fn scan_item(lexer: &mut Lexer) -> (r: Scan)
    requires
        old(lexer).wf(),
    ensures
        final(lexer).wf(),
        final(lexer).text() == old(lexer).text(),
        item_at(old(lexer).text(), old(lexer).position()) == (match r {
            Scan::Item(item) => Scanned::Item(item@, final(lexer).position()),
            Scan::End => Scanned::End,
            Scan::Error => Scanned::Error,
        }),
        r is Item ==> old(lexer).position() < final(lexer).position(),
{
    proof {
        lexer.lemma_fields();
        lemma_token_at(lexer.text(), lexer.position());
    }
    match lexer.next() {
        None => Scan::End,
        Some(Token::Word(w)) => {
            let rest = lexer.remainder_of_line();
            Scan::Item(Item::Text(w.concat(rest.as_str())))
        },
        Some(Token::Number(_)) => Scan::Error,
        Some(Token::Symbol(c)) => scan_symbol(lexer, c),
    }
}

/// All items of `text`; `None` where something in it is no item.
pub fn scan_items(text: &str) -> (r: Option<Vec<Item>>)
    ensures
        r is Some <==> items_from(text@, 0) is Some,
        r matches Some(items) ==> items_from(text@, 0) == Some(item_models(items@)),
{
    let mut lexer = Lexer::new(text);
    let mut out: Vec<Item> = Vec::new();
    let ghost s = text@;
    assert(item_models(out@) =~= Seq::<ItemModel>::empty());
    loop
        invariant
            lexer.wf(),
            lexer.text() == s,
            s == text@,
            items_from(s, 0) == (match items_from(s, lexer.position()) {
                Some(rest) => Some(item_models(out@) + rest),
                None => None,
            }),
        decreases s.len() - lexer.position(),
    {
        proof {
            lexer.lemma_fields();
        }
        match scan_item(&mut lexer) {
            Scan::Item(item) => {
                proof {
                    lexer.lemma_fields();
                    assert(item_models(out@.push(item)) =~= item_models(out@) + seq![item@]);
                    match items_from(s, lexer.position()) {
                        Some(rest) => {
                            assert(item_models(out@) + (seq![item@] + rest) =~= item_models(
                                out@.push(item),
                            ) + rest);
                        },
                        None => {},
                    }
                }
                out.push(item);
            },
            Scan::End => {
                assert(item_models(out@) + Seq::<ItemModel>::empty() =~= item_models(out@));
                return Some(out);
            },
            Scan::Error => {
                return None;
            },
        }
    }
}

} // verus!
