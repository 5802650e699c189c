use monkey::lexer::Lexer;
use monkey::token::TokenType;

fn kinds_and_texts(input: &str) -> Vec<(TokenType, String)> {
    let mut lexer = Lexer::new(input);
    let mut out = Vec::new();
    loop {
        let t = lexer.next_token();
        let done = t.t == TokenType::EOF;
        out.push((t.t, t.v));
        if done {
            break;
        }
    }
    out
}

#[test]
fn lexes_operators_delimiters_and_keywords() {
    let toks = kinds_and_texts("let five = 5; fn(x) { x != 10 == y } if else return true false !-/*<>,");
    let kinds: Vec<TokenType> = toks.iter().map(|t| t.0).collect();
    assert_eq!(
        kinds,
        vec![
            TokenType::Let, TokenType::Ident, TokenType::Assign, TokenType::Int, TokenType::Semicolon, TokenType::Function, TokenType::LParen, TokenType::Ident, TokenType::RParen, TokenType::LBrace, TokenType::Ident,
            TokenType::NotEq, TokenType::Int, TokenType::Eq, TokenType::Ident, TokenType::RBrace, TokenType::If, TokenType::Else, TokenType::Return, TokenType::True, TokenType::False, TokenType::Bang, TokenType::Minus, TokenType::Slash,
            TokenType::Asterisk, TokenType::LessThan, TokenType::GreaterThan, TokenType::Comma, TokenType::EOF,
        ]
    );
    assert_eq!(toks[1].1, "five");
    assert_eq!(toks[3].1, "5");
    assert_eq!(toks[11].1, "!=");
    assert_eq!(toks[13].1, "==");
}

#[test]
fn identifiers_hold_letters_and_underscores_only() {
    let toks = kinds_and_texts("foo_bar x1");
    assert_eq!(toks[0], (TokenType::Ident, "foo_bar".to_string()));
    assert_eq!(toks[1], (TokenType::Ident, "x".to_string()));
    assert_eq!(toks[2], (TokenType::Int, "1".to_string()));
}

#[test]
fn zero_digit_is_an_integer_not_the_end() {
    let toks = kinds_and_texts("0 10");
    assert_eq!(toks[0], (TokenType::Int, "0".to_string()));
    assert_eq!(toks[1], (TokenType::Int, "10".to_string()));
    assert_eq!(toks[2], (TokenType::EOF, String::new()));
}

#[test]
fn illegal_character_is_its_own_token() {
    let toks = kinds_and_texts("a @ b");
    assert_eq!(toks[1], (TokenType::Illegal, "@".to_string()));
    assert_eq!(toks[2], (TokenType::Ident, "b".to_string()));
}

#[test]
fn end_of_input_repeats() {
    let mut lexer = Lexer::new("x  ");
    assert_eq!(lexer.next_token().t, TokenType::Ident);
    for _ in 0..3 {
        let t = lexer.next_token();
        assert_eq!(t.t, TokenType::EOF);
        assert_eq!(t.v, "");
    }
}
