use turtlicoscript::lexer::tokenize;
use turtlicoscript::parser::get_tokens;
use turtlicoscript::tokens::Token;

fn tokens(src: &str) -> Vec<Result<Token, ()>> {
    get_tokens(src)
}

fn ok(src: &str) -> Vec<Token> {
    get_tokens(src).into_iter().map(|t| t.expect("a token")).collect()
}

fn name(s: &str) -> Token {
    Token::Function(String::from(s))
}

fn var(s: &str) -> Token {
    Token::Variable(String::from(s))
}

#[test]
fn keywords_and_names() {
    assert_eq!(
        ok("if else return break loop for while fn"),
        vec![
            Token::If,
            Token::Else,
            Token::Return,
            Token::Break,
            Token::Loop,
            Token::For,
            Token::While,
            Token::FnDef
        ]
    );
    assert_eq!(ok("iffy fnx returns"), vec![name("iffy"), name("fnx"), name("returns")]);
    assert_eq!(ok("go_left x1"), vec![name("go_left"), name("x1")]);
}

#[test]
fn a_name_has_two_characters_at_least() {
    assert_eq!(tokens("a"), vec![Err(())]);
    assert_eq!(tokens("a b"), vec![Err(()), Err(())]);
    assert_eq!(tokens("ab"), vec![Ok(name("ab"))]);
    assert_eq!(tokens("_x"), vec![Err(()), Err(())]);
}

#[test]
fn names_in_other_scripts() {
    assert_eq!(ok("želva"), vec![name("želva")]);
    assert_eq!(ok("$želva"), vec![var("želva")]);
    assert_eq!(tokens("€"), vec![Err(())]);
    assert_eq!(tokens("ab€cd"), vec![Ok(name("ab")), Err(()), Ok(name("cd"))]);
}

#[test]
fn variables() {
    assert_eq!(ok("$x $long_name $1"), vec![var("x"), var("long_name"), var("1")]);
    assert_eq!(tokens("$"), vec![Err(())]);
    assert_eq!(tokens("$ x"), vec![Err(()), Err(())]);
    assert_eq!(tokens("$$x"), vec![Err(()), Ok(var("x"))]);
}

#[test]
fn numbers() {
    assert_eq!(ok("0 12 2147483647"), vec![
        Token::Integer(0),
        Token::Integer(12),
        Token::Integer(2147483647)
    ]);
    assert_eq!(tokens("2147483648"), vec![Err(())]);
    assert_eq!(tokens("99999999999999999999999"), vec![Err(())]);
    assert_eq!(ok("1.5 10.25 007"), vec![
        Token::Float(String::from("1.5")),
        Token::Float(String::from("10.25")),
        Token::Integer(7)
    ]);
    assert_eq!(ok("1."), vec![Token::Integer(1), Token::Dot]);
    assert_eq!(ok("1.5.2"), vec![Token::Float(String::from("1.5")), Token::Dot, Token::Integer(2)]);
    assert_eq!(ok("inf"), vec![Token::Float(String::from("inf"))]);
    assert_eq!(ok("info"), vec![name("info")]);
    assert_eq!(ok("12ab"), vec![Token::Integer(12), name("ab")]);
    assert_eq!(ok("-5"), vec![Token::Minus, Token::Integer(5)]);
}

#[test]
fn signs() {
    assert_eq!(
        ok("( ) { } [ ] , : . + - * / == != < > <= >= ="),
        vec![
            Token::LeftParent,
            Token::RightParent,
            Token::LeftCurly,
            Token::RightCurly,
            Token::LeftSquare,
            Token::RightSquare,
            Token::Comma,
            Token::Colon,
            Token::Dot,
            Token::Plus,
            Token::Minus,
            Token::Star,
            Token::Slash,
            Token::Eq,
            Token::Neq,
            Token::Lt,
            Token::Gt,
            Token::Lte,
            Token::Gte,
            Token::Assignment
        ]
    );
    assert_eq!(ok("==="), vec![Token::Eq, Token::Assignment]);
    assert_eq!(ok("<=="), vec![Token::Lte, Token::Assignment]);
    assert_eq!(tokens("!"), vec![Err(())]);
    assert_eq!(tokens("!x"), vec![Err(()), Err(())]);
    assert_eq!(tokens("%"), vec![Err(())]);
}

#[test]
fn layout() {
    assert_eq!(ok(" \t\u{c} "), vec![]);
    assert_eq!(ok(""), vec![]);
    assert_eq!(ok(";"), vec![Token::Space]);
    assert_eq!(ok(";;"), vec![Token::Space, Token::Space]);
    assert_eq!(ok("\n"), vec![Token::Newline]);
    assert_eq!(ok("\n\n\n"), vec![Token::Newline]);
    assert_eq!(ok("\n \n"), vec![Token::Newline, Token::Newline]);
    assert_eq!(ok("# note\nab"), vec![Token::Comment, Token::Newline, name("ab")]);
    assert_eq!(ok("ab# note"), vec![name("ab"), Token::Comment]);
    assert_eq!(ok("#"), vec![Token::Comment]);
    assert_eq!(tokens("\r"), vec![Err(())]);
}

#[test]
fn quoted_literals() {
    assert_eq!(ok("\"\""), vec![Token::String(String::new())]);
    assert_eq!(ok("\"text\""), vec![Token::String(String::from("text"))]);
    assert_eq!(ok("\"two words\""), vec![Token::String(String::from("two words"))]);
    assert_eq!(ok("\"a\nb\""), vec![Token::String(String::from("a\nb"))]);
    assert_eq!(ok("\"a\\nb\""), vec![Token::String(String::from("a\\nb"))]);
    assert_eq!(ok("\"say \\\"hi\\\"\""), vec![Token::String(String::from("say \\\"hi\\\""))]);
    assert_eq!(ok("@\"turtle\""), vec![Token::Image(String::from("turtle"))]);
    assert_eq!(ok("k\"A\""), vec![Token::Key(String::from("A"))]);
    assert_eq!(ok("f\"data.txt\""), vec![Token::File(String::from("data.txt"))]);
    assert_eq!(ok("s\"Tile map 0\""), vec![Token::Tilemap(String::from("Tile map 0"))]);
    assert_eq!(ok("kk\"A\""), vec![name("kk"), Token::String(String::from("A"))]);
    assert_eq!(ok("\"a\"\"b\""), vec![
        Token::String(String::from("a")),
        Token::String(String::from("b"))
    ]);
}

#[test]
fn a_literal_with_a_letter_loses_quotes_at_its_end() {
    assert_eq!(ok("@\"a\\\"\""), vec![Token::Image(String::from("a\\"))]);
    assert_eq!(ok("\"a\\\"\""), vec![Token::String(String::from("a\\\""))]);
}

#[test]
fn quoted_literals_that_do_not_end() {
    assert_eq!(tokens("\"ab"), vec![Err(()), Ok(name("ab"))]);
    assert_eq!(tokens("\"a\\qb\""), vec![Err(()), Err(()), Err(()), Ok(name("qb")), Err(())]);
    assert_eq!(tokens("@\"ab"), vec![Err(()), Err(()), Ok(name("ab"))]);
    assert_eq!(tokens("k\"ab"), vec![Err(()), Err(()), Ok(name("ab"))]);
    assert_eq!(tokens("\"a\\"), vec![Err(()), Err(()), Err(())]);
}

#[test]
fn spans_count_bytes() {
    let lexemes = tokenize("ab  $cd\n12.5");
    let spans: Vec<_> = lexemes.iter().map(|l| l.span.clone()).collect();
    assert_eq!(spans, vec![0..2, 4..7, 7..8, 8..12]);
    let lexemes = tokenize("\"é\" žx €");
    let spans: Vec<_> = lexemes.iter().map(|l| l.span.clone()).collect();
    assert_eq!(spans, vec![0..4, 5..8, 9..12]);
    assert!(lexemes[2].token.is_err());
    let lexemes = tokenize("\u{10348}\u{10348} \u{1F600}");
    let spans: Vec<_> = lexemes.iter().map(|l| l.span.clone()).collect();
    assert_eq!(spans, vec![0..8, 9..13]);
    assert!(lexemes[0].token.is_ok());
    assert!(lexemes[1].token.is_err());
}

#[test]
fn token_texts() {
    assert_eq!(Token::If.to_text(), "If");
    assert_eq!(Token::LeftParent.to_text(), "LeftParent");
    assert_eq!(Token::Integer(-5).to_text(), "Integer(-5)");
    assert_eq!(name("go").to_text(), "Function(\"go\")");
    assert_eq!(Token::Float(String::from("1.5")).to_text(), "Float(\"1.5\")");
}

#[test]
fn layout_tokens() {
    assert!(Token::Newline.is_layout());
    assert!(Token::Space.is_layout());
    assert!(Token::Comment.is_layout());
    assert!(!Token::Comma.is_layout());
    assert!(!name("ab").is_layout());
}
