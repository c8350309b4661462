use turtlicoscript::ast::{Expression, Spanned};
use turtlicoscript::error::Error;
use turtlicoscript::parser::{parse, parse_tokens};
use turtlicoscript::program::{flatten_program, Command, CommandRange};
use turtlicoscript::tokens::Token;

fn tree(src: &str) -> String {
    match parse(src) {
        Ok(root) => show(&root),
        Err(errors) => panic!("cannot parse {:?}: {:?}", src, errors),
    }
}

fn list(items: &[Spanned<Expression>]) -> String {
    items.iter().map(show).collect::<Vec<String>>().join(" ")
}

/// The tree in brackets, without its spans.
fn show(e: &Spanned<Expression>) -> String {
    match &e.item {
        Expression::Call { expr, args } => format!("(call {} [{}])", show(expr), list(args)),
        Expression::Assignment { expr, value } => format!("(= {} {})", show(expr), show(value)),
        Expression::ObjDef { object } => format!(
            "(obj{})",
            object.iter().map(|(k, v)| format!(" {}:{}", show(k), show(v))).collect::<String>()
        ),
        Expression::Return { value } => format!("(return {})", show(value)),
        Expression::Break => String::from("break"),
        Expression::If { cond, body } => format!("(if {} {})", show(cond), show(body)),
        Expression::LoopFinite { iters, body } => format!("(times {} {})", show(iters), show(body)),
        Expression::LoopInfinite { body } => format!("(loop {})", show(body)),
        Expression::For { var, start, end, step, body } => format!(
            "(for {} {} {} {} {})",
            var,
            show(start),
            show(end),
            step.as_ref().map(|s| show(s)).unwrap_or(String::from("-")),
            show(body)
        ),
        Expression::While { cond, body } => format!("(while {} {})", show(cond), show(body)),
        Expression::FnDef { name, args, body } => {
            format!("(fn {} [{}] {})", name, args.join(" "), show(body))
        }
        Expression::Negation(a) => format!("(neg {})", show(a)),
        Expression::Multiply(a, b) => format!("(* {} {})", show(a), show(b)),
        Expression::Division(a, b) => format!("(/ {} {})", show(a), show(b)),
        Expression::Addition(a, b) => format!("(+ {} {})", show(a), show(b)),
        Expression::Subtraction(a, b) => format!("(- {} {})", show(a), show(b)),
        Expression::Eq(a, b) => format!("(== {} {})", show(a), show(b)),
        Expression::Neq(a, b) => format!("(!= {} {})", show(a), show(b)),
        Expression::Lt(a, b) => format!("(< {} {})", show(a), show(b)),
        Expression::Gt(a, b) => format!("(> {} {})", show(a), show(b)),
        Expression::Lte(a, b) => format!("(<= {} {})", show(a), show(b)),
        Expression::Gte(a, b) => format!("(>= {} {})", show(a), show(b)),
        Expression::Int(v) => format!("{}", v),
        Expression::Float(v) => format!("{}f", v),
        Expression::String(v) => format!("{:?}", v),
        Expression::Image(v) => format!("@{:?}", v),
        Expression::Key(v) => format!("k{:?}", v),
        Expression::Variable { parent, name } => match parent {
            Some(p) => format!("{}.{}", show(p), name),
            None => name.clone(),
        },
        Expression::Nil => String::from("nil"),
        Expression::Block(items) => format!("{{{}}}", list(items)),
    }
}

#[test]
fn the_root_is_a_block() {
    assert_eq!(tree(""), "{}");
    assert_eq!(tree("1"), "{1}");
    assert_eq!(tree("1 2 3"), "{1 2 3}");
    assert_eq!(tree("\n;1 # one\n;2\n"), "{1 2}");
}

#[test]
fn operators_bind_by_rank_and_to_the_left() {
    assert_eq!(tree("1 + 2 * 3"), "{(+ 1 (* 2 3))}");
    assert_eq!(tree("1 * 2 + 3"), "{(+ (* 1 2) 3)}");
    assert_eq!(tree("1 - 2 - 3"), "{(- (- 1 2) 3)}");
    assert_eq!(tree("8 / 4 / 2"), "{(/ (/ 8 4) 2)}");
    assert_eq!(tree("1 + 2 < 3 * 4"), "{(< (+ 1 2) (* 3 4))}");
    assert_eq!(tree("1 == 2 != 3"), "{(!= (== 1 2) 3)}");
    assert_eq!(tree("1 <= 2 >= 3 > 4"), "{(> (>= (<= 1 2) 3) 4)}");
    assert_eq!(tree("(1 + 2) * 3"), "{(* (+ 1 2) 3)}");
    assert_eq!(tree("-1 - -2"), "{(- (neg 1) (neg 2))}");
    assert_eq!(tree("--1"), "{(neg (neg 1))}");
    assert_eq!(tree("-$a * 2"), "{(* (neg a) 2)}");
    assert_eq!(tree("1.5 + inf"), "{(+ 1.5f inff)}");
}

#[test]
fn calls() {
    assert_eq!(tree("go()"), "{(call go [])}");
    assert_eq!(tree("go(1)"), "{(call go [1])}");
    assert_eq!(tree("go(1, $a, 2 + 3)"), "{(call go [1 a (+ 2 3)])}");
    assert_eq!(tree("go(, 1)"), "{(call go [1])}");
    assert_eq!(tree("go(,)"), "{(call go [])}");
    assert_eq!(tree("$turtle.go(1)"), "{(call turtle.go [1])}");
    assert_eq!(tree("go(left(90))"), "{(call go [(call left [90])])}");
}

#[test]
fn calls_without_brackets() {
    assert_eq!(tree("go"), "{(call go [])}");
    assert_eq!(tree("go 5"), "{(call go [5])}");
    assert_eq!(tree("go \"far\""), "{(call go [\"far\"])}");
    assert_eq!(tree("go $n"), "{(call go [n])}");
    assert_eq!(tree("go $a.$b"), "{(call go [a.b])}");
    assert_eq!(tree("$turtle.go 5"), "{(call turtle.go [5])}");
    assert_eq!(tree("go left"), "{(call go []) (call left [])}");
    assert_eq!(tree("go 5 + 1"), "{(+ (call go [5]) 1)}");
    assert_eq!(tree("go -5"), "{(- (call go []) 5)}");
}

#[test]
fn variables_and_assignments() {
    assert_eq!(tree("$a"), "{a}");
    assert_eq!(tree("$a.$b"), "{a.b}");
    assert_eq!(tree("$a = 1"), "{(= a 1)}");
    assert_eq!(tree("$a.$b = 1 + 2"), "{(= a.b (+ 1 2))}");
    assert_eq!(tree("$a = $b = 1"), "{(= a (= b 1))}");
    assert_eq!(tree("$a = 1 $b = 2"), "{(= a 1) (= b 2)}");
}

#[test]
fn keywords() {
    assert_eq!(tree("if $a { 1 }"), "{(if a {1})}");
    assert_eq!(tree("if $a 1"), "{(if a 1)}");
    assert_eq!(tree("return 1"), "{(return 1)}");
    assert_eq!(tree("return"), "{(return nil)}");
    assert_eq!(tree("{ return }"), "{{(return nil)}}");
    assert_eq!(tree("break"), "{break}");
    assert_eq!(tree("loop { break }"), "{(loop {break})}");
    assert_eq!(tree("loop 3 { go }"), "{(times 3 {(call go [])})}");
    assert_eq!(tree("loop { go } 3"), "{(times {(call go [])} 3)}");
    assert_eq!(tree("while $a < 3 { go }"), "{(while (< a 3) {(call go [])})}");
    assert_eq!(tree("for $i 0 5 { go }"), "{(for i 0 5 - {(call go [])})}");
    assert_eq!(tree("for $i 0 5 2 { go }"), "{(for i 0 5 2 {(call go [])})}");
    assert_eq!(tree("for $i 0 5 { } go"), "{(for i 0 5 - {}) (call go [])}");
    assert_eq!(tree("fn add($a, $b) { return $a + $b }"), "{(fn add [a b] {(return (+ a b))})}");
    assert_eq!(tree("fn nothing() 1"), "{(fn nothing [] 1)}");
}

#[test]
fn images_and_keys_are_literals() {
    assert_eq!(tree("@\"cat\""), "{@\"cat\"}");
    assert_eq!(tree("k\"A\""), "{k\"A\"}");
    assert_eq!(tree("skin @\"cat\""), "{(call skin [@\"cat\"])}");
    assert_eq!(tree("pressed(k\"A\")"), "{(call pressed [k\"A\"])}");
}

#[test]
fn blocks_and_objects() {
    assert_eq!(tree("{ 1 2 }"), "{{1 2}}");
    assert_eq!(tree("{ { } }"), "{{(obj)}}");
    assert_eq!(tree("{ }"), "{(obj)}");
    assert_eq!(tree("$o = {}"), "{(= o (obj))}");
    assert_eq!(tree("{ \"a\": 1 }"), "{(obj \"a\":1)}");
    assert_eq!(tree("{ \"a\": 1, 2: $b }"), "{(obj \"a\":1 2:b)}");
    assert_eq!(tree("{ \"a\": { \"b\": 1 } }"), "{(obj \"a\":(obj \"b\":1))}");
    assert_eq!(tree("{ $a = 1 }"), "{{(= a 1)}}");
}

fn stuck(src: &str) -> (Error, std::ops::Range<usize>) {
    match parse(src) {
        Ok(root) => panic!("{:?} was parsed: {}", src, show(&root)),
        Err(mut errors) => {
            assert_eq!(errors.len(), 1);
            let e = errors.remove(0);
            (e.item, e.span)
        }
    }
}

fn ends_too_soon(src: &str) {
    let (e, span) = stuck(src);
    assert!(matches!(e, Error::SyntaxError(ref m) if m == "Unexpected end of input"), "{:?}", src);
    assert_eq!(span, src.len()..src.len(), "{:?}", src);
}

#[test]
fn the_token_at_which_the_grammar_cannot_go_on_is_the_error() {
    let (e, span) = stuck(")");
    assert!(matches!(e, Error::UnexpectedToken(Token::RightParent)));
    assert_eq!(span, 0..1);
    let (e, span) = stuck("1 + )");
    assert!(matches!(e, Error::UnexpectedToken(Token::RightParent)));
    assert_eq!(span, 4..5);
    let (e, span) = stuck("go(1,)");
    assert!(matches!(e, Error::UnexpectedToken(Token::RightParent)));
    assert_eq!(span, 5..6);
    let (e, _) = stuck("else");
    assert!(matches!(e, Error::UnexpectedToken(Token::Else)));
    let (e, _) = stuck("[");
    assert!(matches!(e, Error::UnexpectedToken(Token::LeftSquare)));
    let (e, _) = stuck("f\"data\"");
    assert!(matches!(e, Error::UnexpectedToken(Token::File(ref s)) if s == "data"));
    let (e, _) = stuck("s\"map\"");
    assert!(matches!(e, Error::UnexpectedToken(Token::Tilemap(ref s)) if s == "map"));
    let (e, span) = stuck("$a.$b.$c");
    assert!(matches!(e, Error::UnexpectedToken(Token::Dot)));
    assert_eq!(span, 5..6);
    let (e, span) = stuck("$a = 1 $b = )");
    assert!(matches!(e, Error::UnexpectedToken(Token::RightParent)));
    assert_eq!(span, 12..13);
}

#[test]
fn an_error_within_a_form_is_shown_within_the_form() {
    let (e, span) = stuck("fn ff() { $a = 1 + }");
    assert!(matches!(e, Error::UnexpectedToken(Token::RightCurly)));
    assert_eq!(span, 19..20);
    let (e, span) = stuck("if $a { go(1 2) }");
    assert!(matches!(e, Error::UnexpectedToken(Token::Integer(2))));
    assert_eq!(span, 13..14);
    let (e, span) = stuck("$o = { \"a\": 1, \"b\" 2 }");
    assert!(matches!(e, Error::UnexpectedToken(Token::Integer(2))));
    assert_eq!(span, 19..20);
    let (e, span) = stuck("$a = (1 + 2 go");
    assert!(matches!(e, Error::UnexpectedToken(Token::Function(ref n)) if n == "go"));
    assert_eq!(span, 12..14);
    let (e, span) = stuck("fn ff($a $b) { }");
    assert!(matches!(e, Error::UnexpectedToken(Token::Variable(ref n)) if n == "b"));
    assert_eq!(span, 9..11);
    let (e, span) = stuck("fn 5() { }");
    assert!(matches!(e, Error::UnexpectedToken(Token::Integer(5))));
    assert_eq!(span, 3..4);
    let (e, span) = stuck("for 0 5 { }");
    assert!(matches!(e, Error::UnexpectedToken(Token::Integer(0))));
    assert_eq!(span, 4..5);
    let (e, span) = stuck("while $a < 3 { go( }");
    assert!(matches!(e, Error::UnexpectedToken(Token::RightCurly)));
    assert_eq!(span, 19..20);
}

#[test]
fn a_program_that_ends_too_soon() {
    ends_too_soon("1 +");
    ends_too_soon("$a = 1 { 2");
    ends_too_soon("$a = (1 + 2");
    ends_too_soon("fn ff() {");
    ends_too_soon("loop { go(1");
    ends_too_soon("if");
    ends_too_soon("for $i 0 { }");
    ends_too_soon("while $a < { }");
    ends_too_soon("{ \"a\":");
    let errors = parse_tokens(vec![Token::Newline, Token::FnDef]).unwrap_err();
    assert!(matches!(errors[0].item, Error::SyntaxError(_)));
    assert_eq!(errors[0].span, 2..2);
}

#[test]
fn lexical_errors_are_all_that_is_reported() {
    match parse("1 + ) % a") {
        Ok(_) => panic!("parsed"),
        Err(errors) => {
            assert_eq!(errors.len(), 2);
            assert!(matches!(errors[0].item, Error::InvalidToken));
            assert_eq!(errors[0].span, 6..7);
            assert!(matches!(errors[1].item, Error::InvalidToken));
            assert_eq!(errors[1].span, 8..9);
        }
    }
}

#[test]
fn spans_of_nodes() {
    let root = parse("  $a = 1 + (22 * 3)\n").unwrap();
    assert_eq!(root.span, 2..19);
    let items = match root.item {
        Expression::Block(items) => items,
        _ => panic!("no block"),
    };
    assert_eq!(items[0].span, 2..19);
    let (target, value) = match &items[0].item {
        Expression::Assignment { expr, value } => (expr, value),
        _ => panic!("no assignment"),
    };
    assert_eq!(target.span, 2..4);
    assert_eq!(value.span, 7..18);
    let (one, product) = match &value.item {
        Expression::Addition(a, b) => (a, b),
        _ => panic!("no sum"),
    };
    assert_eq!(one.span, 7..8);
    assert_eq!(product.span, 12..18);
    let empty = parse("").unwrap();
    assert_eq!(empty.span, 0..0);
    let bare = parse("return").unwrap();
    match bare.item {
        Expression::Block(items) => match &items[0].item {
            Expression::Return { value } => assert_eq!(value.span, 0..0),
            _ => panic!("no return"),
        },
        _ => panic!("no block"),
    }
}

#[test]
fn tokens_are_parsed_with_their_places_as_spans() {
    let tokens = vec![
        Token::Function(String::from("go")),
        Token::Newline,
        Token::Integer(5),
        Token::Space,
        Token::Comment,
        Token::Plus,
        Token::Integer(1),
    ];
    let root = parse_tokens(tokens).unwrap();
    assert_eq!(show(&root), "{(+ (call go [5]) 1)}");
    assert_eq!(root.span, 0..7);
    match root.item {
        Expression::Block(items) => match &items[0].item {
            Expression::Addition(a, b) => {
                assert_eq!(a.span, 0..3);
                assert_eq!(b.span, 6..7);
            }
            _ => panic!("no sum"),
        },
        _ => panic!("no block"),
    }
    let errors = parse_tokens(vec![Token::Integer(1), Token::Newline, Token::RightCurly]).unwrap_err();
    assert_eq!(errors.len(), 1);
    assert!(matches!(errors[0].item, Error::UnexpectedToken(Token::RightCurly)));
    assert_eq!(errors[0].span, 2..3);
    assert_eq!(show(&parse_tokens(vec![]).unwrap()), "{}");
}

#[test]
fn a_float_is_kept_as_it_is_written() {
    let root = parse_tokens(vec![Token::Float(String::from("1e3"))]).unwrap();
    assert_eq!(show(&root), "{1e3f}");
}

#[test]
fn a_program_of_blocks_is_its_tokens_row_after_row() {
    let program = vec![
        vec![
            Command::Comment(String::from("first")),
            Command::Token(Token::Function(String::from("go"))),
            Command::Token(Token::Integer(5)),
            Command::Token(Token::Newline),
        ],
        vec![],
        vec![Command::Comment(String::new())],
        vec![Command::Token(Token::Function(String::from("left"))), Command::Token(Token::Newline)],
    ];
    let tokens = flatten_program(&program);
    assert_eq!(
        tokens,
        vec![
            Token::Function(String::from("go")),
            Token::Integer(5),
            Token::Newline,
            Token::Function(String::from("left")),
            Token::Newline
        ]
    );
    assert_eq!(show(&parse_tokens(tokens).unwrap()), "{(call go [5]) (call left [])}");
    assert_eq!(flatten_program(&Vec::new()), vec![]);
}

#[test]
fn a_range_of_one_block() {
    let range = CommandRange::single_icon(3, 7);
    assert_eq!(range.start, (3, 7));
    assert_eq!(range.end, (3, 7));
    assert!(range == CommandRange { start: (3, 7), end: (3, 7) });
}
