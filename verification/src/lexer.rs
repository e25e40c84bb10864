//! Lexical analysis: characters to tokens.
//!
//! A token is a word, a number or one of fourteen punctuation symbols.
//! Blanks and line ends between tokens are skipped. A number is a run of
//! digits, optionally followed by one decimal point and a further run of
//! digits. A word starts at any other character and runs up to the next
//! blank, line end or punctuation symbol.

use vstd::prelude::*;
use crate::text::Text;

verus! {

/// A lexical token.
#[derive(Debug, PartialEq, Eq)]
pub enum Token {
    Word(String),
    /// A decimal literal, as written.
    Number(String),
    /// One of `$ < > = | + - * / ! [ ] ( )`.
    Symbol(char),
}

pub ghost enum TokenModel {
    Word(Seq<char>),
    Number(Seq<char>),
    Symbol(char),
}

impl View for Token {
    type V = TokenModel;

    open spec fn view(&self) -> TokenModel {
        match self {
            Token::Word(w) => TokenModel::Word(w@),
            Token::Number(n) => TokenModel::Number(n@),
            Token::Symbol(c) => TokenModel::Symbol(*c),
        }
    }
}

/// What a list of tokens stands for.
pub open spec fn token_models(tokens: Seq<Token>) -> Seq<TokenModel> {
    Seq::new(tokens.len(), |i: int| tokens[i]@)
}

/// Sets of characters that the lexer tells apart.
#[derive(Clone, Copy, Debug, PartialEq, Eq, Structural)]
pub enum CharClass {
    /// A blank or a line end: what separates tokens.
    Space,
    /// A space, a tab or a carriage return.
    Blank,
    /// The space character alone: what indentation is counted in.
    Indent,
    /// A decimal digit.
    Digit,
    /// What a word goes on with: anything but space and punctuation.
    Word,
    /// Anything but a line end.
    Line,
}

pub open spec fn is_blank(c: char) -> bool {
    c == ' ' || c == '\t' || c == '\r'
}

pub open spec fn is_digit(c: char) -> bool {
    '0' <= c <= '9'
}

/// The punctuation symbols.
pub open spec fn is_symbol(c: char) -> bool {
    c == '$' || c == '<' || c == '>' || c == '=' || c == '|' || c == '+' || c == '-' || c == '*'
        || c == '/' || c == '!' || c == '[' || c == ']' || c == '(' || c == ')'
}

pub open spec fn in_class(class: CharClass, c: char) -> bool {
    match class {
        CharClass::Space => is_blank(c) || c == '\n',
        CharClass::Blank => is_blank(c),
        CharClass::Indent => c == ' ',
        CharClass::Digit => is_digit(c),
        CharClass::Word => !is_blank(c) && c != '\n' && !is_symbol(c),
        CharClass::Line => c != '\n',
    }
}

/// The end of the longest run of characters of `class` that starts at
/// `pos`.
pub open spec fn run_end(s: Seq<char>, pos: nat, class: CharClass) -> nat
    decreases s.len() - pos,
{
    if pos < s.len() && in_class(class, s[pos as int]) {
        run_end(s, pos + 1, class)
    } else {
        pos
    }
}

/// A run ends inside the text, holds only characters of its class, and
/// stops at the first character that is not of it.
pub proof fn lemma_run_end(s: Seq<char>, pos: nat, class: CharClass)
    requires
        pos <= s.len(),
    ensures
        pos <= run_end(s, pos, class) <= s.len(),
        forall|i: int| pos <= i < run_end(s, pos, class) ==> in_class(class, #[trigger] s[i]),
        run_end(s, pos, class) < s.len() ==> !in_class(class, s[run_end(s, pos, class) as int]),
    decreases s.len() - pos,
{
    if pos < s.len() && in_class(class, s[pos as int]) {
        lemma_run_end(s, pos + 1, class);
    }
}

/// Where the number that starts at `pos` ends: after its digits, and after
/// one decimal point with the digits behind it, if there is one.
pub open spec fn number_end(s: Seq<char>, pos: nat) -> nat {
    let whole = run_end(s, pos, CharClass::Digit);
    if whole < s.len() && s[whole as int] == '.' {
        run_end(s, whole + 1, CharClass::Digit)
    } else {
        whole
    }
}

/// The first token at or after `pos` with the position behind it; `None`
/// when only space is left.
pub open spec fn token_at(s: Seq<char>, pos: nat) -> Option<(TokenModel, nat)> {
    let start = run_end(s, pos, CharClass::Space);
    if start >= s.len() {
        None
    } else if is_symbol(s[start as int]) {
        Some((TokenModel::Symbol(s[start as int]), start + 1))
    } else if is_digit(s[start as int]) {
        let end = number_end(s, start);
        Some((TokenModel::Number(s.subrange(start as int, end as int)), end))
    } else {
        let end = run_end(s, start, CharClass::Word);
        Some((TokenModel::Word(s.subrange(start as int, end as int)), end))
    }
}

/// A token ends behind the position it was asked for, inside the text.
pub proof fn lemma_token_at(s: Seq<char>, pos: nat)
    requires
        pos <= s.len(),
    ensures
        token_at(s, pos) matches Some((_, end)) ==> pos < end <= s.len(),
{
    lemma_run_end(s, pos, CharClass::Space);
    let start = run_end(s, pos, CharClass::Space);
    if start < s.len() {
        lemma_run_end(s, start, CharClass::Digit);
        let whole = run_end(s, start, CharClass::Digit);
        if whole < s.len() {
            lemma_run_end(s, whole + 1, CharClass::Digit);
        }
        lemma_run_end(s, start, CharClass::Word);
        if !is_symbol(s[start as int]) && !is_digit(s[start as int]) {
            assert(in_class(CharClass::Word, s[start as int]));
        }
    }
}

/// All tokens from `pos` to the end of the text.
pub open spec fn tokens_from(s: Seq<char>, pos: nat) -> Seq<TokenModel>
    decreases s.len() - pos,
{
    match token_at(s, pos) {
        None => Seq::empty(),
        Some((token, end)) => if pos < end <= s.len() {
            seq![token] + tokens_from(s, end)
        } else {
            Seq::empty()
        },
    }
}

/// The start of the line that holds position `pos`.
pub open spec fn line_start(s: Seq<char>, pos: nat) -> nat
    decreases pos,
{
    if pos == 0 || pos > s.len() {
        0
    } else if s[pos - 1] == '\n' {
        pos
    } else {
        line_start(s, (pos - 1) as nat)
    }
}

/// The number of leading spaces of the last line completed before `pos`:
/// the line before the one that holds `pos`. Zero on the first line.
pub open spec fn indent_before(s: Seq<char>, pos: nat) -> nat {
    let start = line_start(s, pos);
    if start == 0 {
        0
    } else {
        let previous = line_start(s, (start - 1) as nat);
        (run_end(s, previous, CharClass::Indent) - previous) as nat
    }
}

pub fn blank(c: char) -> (r: bool)
    ensures
        r == is_blank(c),
{
    c == ' ' || c == '\t' || c == '\r'
}

pub fn digit(c: char) -> (r: bool)
    ensures
        r == is_digit(c),
{
    '0' <= c && c <= '9'
}

pub fn symbol(c: char) -> (r: bool)
    ensures
        r == is_symbol(c),
{
    c == '$' || c == '<' || c == '>' || c == '=' || c == '|' || c == '+' || c == '-' || c == '*'
        || c == '/' || c == '!' || c == '[' || c == ']' || c == '(' || c == ')'
}

pub fn member(class: CharClass, c: char) -> (r: bool)
    ensures
        r == in_class(class, c),
{
    match class {
        CharClass::Space => blank(c) || c == '\n',
        CharClass::Blank => blank(c),
        CharClass::Indent => c == ' ',
        CharClass::Digit => digit(c),
        CharClass::Word => !blank(c) && c != '\n' && !symbol(c),
        CharClass::Line => c != '\n',
    }
}

/// The end of the run of `class` that starts at `pos`.
pub fn scan_run(chars: &Text, pos: usize, class: CharClass) -> (end: usize)
    requires
        pos <= chars@.len(),
    ensures
        end == run_end(chars@, pos as nat, class),
        pos <= end <= chars@.len(),
{
    let mut i: usize = pos;
    while i < chars.len() && member(class, chars.at(i))
        invariant
            pos <= i <= chars@.len(),
            run_end(chars@, i as nat, class) == run_end(chars@, pos as nat, class),
        decreases chars@.len() - i,
    {
        i += 1;
    }
    i
}

/// The first token at or after `pos` with the position behind it.
pub fn next_token(chars: &Text, pos: usize) -> (r: Option<(Token, usize)>)
    requires
        pos <= chars@.len(),
    ensures
        r is Some <==> token_at(chars@, pos as nat) is Some,
        r matches Some((token, end)) ==> token_at(chars@, pos as nat) == Some(
            (token@, end as nat),
        ) && pos < end <= chars@.len(),
{
    proof {
        lemma_token_at(chars@, pos as nat);
    }
    let start = scan_run(chars, pos, CharClass::Space);
    if start >= chars.len() {
        None
    } else if symbol(chars.at(start)) {
        Some((Token::Symbol(chars.at(start)), start + 1))
    } else if digit(chars.at(start)) {
        let whole = scan_run(chars, start, CharClass::Digit);
        let end = if whole < chars.len() && chars.at(whole) == '.' {
            scan_run(chars, whole + 1, CharClass::Digit)
        } else {
            whole
        };
        Some((Token::Number(chars.string(start, end)), end))
    } else {
        let end = scan_run(chars, start, CharClass::Word);
        Some((Token::Word(chars.string(start, end)), end))
    }
}

/// All tokens of `chars`.
pub fn tokenize(chars: &Text) -> (r: Vec<Token>)
    ensures
        token_models(r@) == tokens_from(chars@, 0),
{
    let mut out: Vec<Token> = Vec::new();
    let mut pos: usize = 0;
    loop
        invariant
            pos <= chars@.len(),
            tokens_from(chars@, 0) == token_models(out@) + tokens_from(chars@, pos as nat),
        ensures
            token_models(out@) == tokens_from(chars@, 0),
        decreases chars@.len() - pos,
    {
        match next_token(chars, pos) {
            Some((token, end)) => {
                proof {
                    assert(token_models(out@.push(token)) =~= token_models(out@) + seq![token@]);
                    assert(token_models(out@.push(token)) + tokens_from(chars@, end as nat)
                        =~= token_models(out@) + (seq![token@] + tokens_from(chars@, end as nat)));
                }
                out.push(token);
                pos = end;
            },
            None => {
                assert(token_models(out@) + Seq::<TokenModel>::empty() =~= token_models(out@));
                break;
            },
        }
    }
    out
}

/// The start of the line that holds `pos`.
pub fn start_of_line(chars: &Text, pos: usize) -> (r: usize)
    requires
        pos <= chars@.len(),
    ensures
        r == line_start(chars@, pos as nat),
        r <= pos,
{
    let mut i: usize = pos;
    while i > 0 && chars.at(i - 1) != '\n'
        invariant
            i <= pos <= chars@.len(),
            line_start(chars@, i as nat) == line_start(chars@, pos as nat),
        decreases i,
    {
        i -= 1;
    }
    i
}

/// A cursor over the characters of a script.
pub struct Lexer {
    pub(crate) chars: Text,
    pub(crate) pos: usize,
}

impl Lexer {
    /// The text that is being read.
    pub closed spec fn text(&self) -> Seq<char> {
        self.chars@
    }

    /// How many characters have been consumed.
    pub closed spec fn position(&self) -> nat {
        self.pos as nat
    }

    /// The position lies inside the text.
    pub closed spec fn wf(&self) -> bool {
        self.pos <= self.chars@.len()
    }

    /// What the three functions above say of the fields.
    pub(crate) proof fn lemma_fields(&self)
        ensures
            self.text() == self.chars@,
            self.position() == self.pos as nat,
            self.wf() == (self.pos <= self.chars@.len()),
    {
    }

    /// A lexer at the start of `text`.
    pub fn new(text: &str) -> (lexer: Lexer)
        ensures
            lexer.wf(),
            lexer.text() == text@,
            lexer.position() == 0,
    {
        Lexer { chars: Text::new(text), pos: 0 }
    }

    /// The next token, which stays unconsumed. Line ends before it are
    /// passed over like blanks.
    pub fn peek(&self) -> (r: Option<Token>)
        requires
            self.wf(),
        ensures
            r is Some <==> token_at(self.text(), self.position()) is Some,
            r matches Some(token) ==> (token_at(self.text(), self.position()) matches Some(found)
                && found.0 == token@),
    {
        match next_token(&self.chars, self.pos) {
            Some((token, _)) => Some(token),
            None => None,
        }
    }

    /// Consumes and returns the next token. The character that ended it
    /// stays unconsumed. At the end of the text nothing is consumed.
    pub fn next(&mut self) -> (r: Option<Token>)
        requires
            old(self).wf(),
        ensures
            final(self).wf(),
            final(self).text() == old(self).text(),
            match token_at(old(self).text(), old(self).position()) {
                Some((token, end)) => r matches Some(t) && t@ == token && final(self).position()
                    == end,
                None => r is None && final(self).position() == old(self).position(),
            },
    {
        match next_token(&self.chars, self.pos) {
            Some((token, end)) => {
                self.pos = end;
                Some(token)
            },
            None => None,
        }
    }

    /// Consumes and returns what is left of the current line. The line end
    /// itself stays unconsumed.
    pub fn remainder_of_line(&mut self) -> (r: String)
        requires
            old(self).wf(),
        ensures
            final(self).wf(),
            final(self).text() == old(self).text(),
            final(self).position() == run_end(old(self).text(), old(self).position(), CharClass::Line),
            old(self).position() <= final(self).position(),
            r@ == old(self).text().subrange(
                old(self).position() as int,
                final(self).position() as int,
            ),
    {
        let end = scan_run(&self.chars, self.pos, CharClass::Line);
        let rest = self.chars.string(self.pos, end);
        self.pos = end;
        rest
    }

    /// The number of leading spaces of the most recently completed line.
    pub fn last_indent(&self) -> (r: usize)
        requires
            self.wf(),
        ensures
            r == indent_before(self.text(), self.position()),
    {
        let start = start_of_line(&self.chars, self.pos);
        if start == 0 {
            0
        } else {
            let previous = start_of_line(&self.chars, start - 1);
            let end = scan_run(&self.chars, previous, CharClass::Indent);
            end - previous
        }
    }

}

} // verus!
