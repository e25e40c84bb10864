use yarn::lexer::{tokenize, Lexer, Token};
use yarn::text::Text;

fn tokens(text: &str) -> Vec<Token> {
    tokenize(&Text::new(text))
}

fn word(s: &str) -> Token {
    Token::Word(s.to_string())
}

fn num(s: &str) -> Token {
    Token::Number(s.to_string())
}

fn sym(c: char) -> Token {
    Token::Symbol(c)
}

#[test]
fn every_symbol_is_a_token_of_its_own() {
    let all = "$<>=|+-*/![]()";
    let expected: Vec<Token> = all.chars().map(Token::Symbol).collect();
    assert_eq!(tokens(all), expected);
}

#[test]
fn words_end_at_space_and_at_symbols() {
    assert_eq!(
        tokens("visited($name) and x"),
        vec![
            word("visited"),
            sym('('),
            sym('$'),
            word("name"),
            sym(')'),
            word("and"),
            word("x"),
        ]
    );
    assert_eq!(tokens("title: Start"), vec![word("title:"), word("Start")]);
    assert_eq!(tokens("a1_b,c"), vec![word("a1_b,c")]);
}

#[test]
fn numbers_take_digits_and_one_decimal_point() {
    assert_eq!(tokens("12"), vec![num("12")]);
    assert_eq!(tokens("12.5"), vec![num("12.5")]);
    assert_eq!(tokens("7."), vec![num("7.")]);
    assert_eq!(tokens("1.2.3"), vec![num("1.2"), word(".3")]);
    assert_eq!(tokens("3+4"), vec![num("3"), sym('+'), num("4")]);
    assert_eq!(tokens("5>>"), vec![num("5"), sym('>'), sym('>')]);
    assert_eq!(tokens("12abc"), vec![num("12"), word("abc")]);
}

#[test]
fn blanks_and_line_ends_separate_tokens() {
    assert_eq!(tokens("  a \t b\r\n\n  c\n"), vec![word("a"), word("b"), word("c")]);
    assert_eq!(tokens(""), Vec::<Token>::new());
    assert_eq!(tokens(" \n \n"), Vec::<Token>::new());
}

#[test]
fn text_outside_ascii_is_kept_whole() {
    assert_eq!(tokens("héllo wörld"), vec![word("héllo"), word("wörld")]);
}

#[test]
fn peek_does_not_consume() {
    let mut lexer = Lexer::new("one two");
    assert_eq!(lexer.peek(), Some(word("one")));
    assert_eq!(lexer.peek(), Some(word("one")));
    assert_eq!(lexer.next(), Some(word("one")));
    assert_eq!(lexer.peek(), Some(word("two")));
    assert_eq!(lexer.next(), Some(word("two")));
    assert_eq!(lexer.peek(), None);
    assert_eq!(lexer.next(), None);
    assert_eq!(lexer.next(), None);
}

#[test]
fn next_passes_over_line_ends() {
    let mut lexer = Lexer::new("a\n\n  b");
    assert_eq!(lexer.next(), Some(word("a")));
    assert_eq!(lexer.next(), Some(word("b")));
}

#[test]
fn remainder_of_line_stops_before_the_line_end() {
    let mut lexer = Lexer::new("Hi there, you!\nnext line");
    assert_eq!(lexer.next(), Some(word("Hi")));
    assert_eq!(lexer.remainder_of_line(), " there, you!");
    assert_eq!(lexer.remainder_of_line(), "");
    assert_eq!(lexer.next(), Some(word("next")));
    assert_eq!(lexer.remainder_of_line(), " line");
    assert_eq!(lexer.next(), None);
}

#[test]
fn character_that_ends_a_token_is_not_consumed() {
    let mut lexer = Lexer::new("12abc\nx");
    assert_eq!(lexer.next(), Some(num("12")));
    assert_eq!(lexer.remainder_of_line(), "abc");
    let mut lexer = Lexer::new("word\nx");
    assert_eq!(lexer.next(), Some(word("word")));
    assert_eq!(lexer.remainder_of_line(), "");
    assert_eq!(lexer.next(), Some(word("x")));
}

#[test]
fn last_indent_counts_the_spaces_of_the_completed_line() {
    let mut lexer = Lexer::new("a\n    b\n  c\nd");
    assert_eq!(lexer.last_indent(), 0);
    assert_eq!(lexer.next(), Some(word("a")));
    assert_eq!(lexer.last_indent(), 0);
    assert_eq!(lexer.next(), Some(word("b")));
    // The lexer is on the second line: the first is the last completed one.
    assert_eq!(lexer.last_indent(), 0);
    assert_eq!(lexer.next(), Some(word("c")));
    assert_eq!(lexer.last_indent(), 4);
    assert_eq!(lexer.next(), Some(word("d")));
    assert_eq!(lexer.last_indent(), 2);
}

#[test]
fn text_is_cut_by_character_positions() {
    let text = Text::new("héllo wörld");
    assert_eq!(text.len(), 11);
    assert_eq!(text.at(1), 'é');
    assert_eq!(text.string(0, 5), "héllo");
    assert_eq!(text.string(6, 11), "wörld");
    assert_eq!(text.string(3, 3), "");
    let inner = text.slice(4, 8);
    assert_eq!(inner.len(), 4);
    assert_eq!(inner.at(3), 'ö');
    assert_eq!(inner.string(0, 4), "o wö");
}
