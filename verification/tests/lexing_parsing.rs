use minilisp::lexer::lex;
use minilisp::lexer::Token;
use minilisp::parser::parse;
use minilisp::parser::parse_program;
use minilisp::objects::Object;

fn sym(s: &str) -> Object {
    Object::Symbol(s.to_string())
}

#[test]
fn lex_splits_tight_delimiters() {
    let toks = lex("'(a)");
    assert_eq!(
        toks,
        vec![
            Token::Quote,
            Token::LParen,
            Token::Symbol("a".to_string()),
            Token::RParen
        ]
    );
}

#[test]
fn lex_classifies_integers_and_symbols() {
    let toks = lex("(+ 12 -7 +5 x7)");
    assert_eq!(
        toks,
        vec![
            Token::LParen,
            Token::Symbol("+".to_string()),
            Token::Integer(12),
            Token::Integer(-7),
            Token::Integer(5),
            Token::Symbol("x7".to_string()),
            Token::RParen
        ]
    );
}

#[test]
fn lex_out_of_range_number_is_a_symbol() {
    let toks = lex("99999999999999999999999999");
    assert_eq!(
        toks,
        vec![Token::Symbol("99999999999999999999999999".to_string())]
    );
}

#[test]
fn lex_extreme_integers() {
    let toks = lex("-9223372036854775808 9223372036854775807");
    assert_eq!(toks, vec![Token::Integer(i64::MIN), Token::Integer(i64::MAX)]);
}

#[test]
fn lex_empty_input() {
    assert_eq!(lex(""), vec![]);
}

#[test]
fn parse_simple_form() {
    let r = parse_program("(+ 1 2)");
    assert_eq!(
        r,
        Ok(Object::List(vec![
            sym("+"),
            Object::Integer(1),
            Object::Integer(2)
        ]))
    );
}

#[test]
fn parse_rewrites_quote_sugar() {
    // A quote marker directly before a closing parenthesis is a parse failure.
    let r = parse_program("('a ' )");
    assert!(r.is_err());
    let r2 = parse_program("('a)");
    assert_eq!(
        r2,
        Ok(Object::List(vec![Object::List(vec![
            sym("quote"),
            sym("a")
        ])]))
    );
}

#[test]
fn parse_quote_at_end_of_input_is_dropped() {
    let r = parse_program("(a '");
    assert_eq!(r, Ok(Object::List(vec![sym("a")])));
}

#[test]
fn parse_nested_forms() {
    let r = parse_program("(a (b 1) ())");
    assert_eq!(
        r,
        Ok(Object::List(vec![
            sym("a"),
            Object::List(vec![sym("b"), Object::Integer(1)]),
            Object::List(vec![])
        ]))
    );
}

#[test]
fn parse_unterminated_list_closes_itself() {
    let r = parse_program("(+ 1 (a b");
    assert_eq!(
        r,
        Ok(Object::List(vec![
            sym("+"),
            Object::Integer(1),
            Object::List(vec![sym("a"), sym("b")])
        ]))
    );
}

#[test]
fn parse_requires_a_left_parenthesis() {
    assert!(parse_program("5").is_err());
    assert!(parse_program("").is_err());
    assert!(parse_program(") (").is_err());
}

#[test]
fn parse_consumes_the_token_stack() {
    let mut toks = lex("(a) (b)");
    toks.reverse();
    let first = parse(&mut toks);
    assert_eq!(first, Ok(Object::List(vec![sym("a")])));
    let second = parse(&mut toks);
    assert_eq!(second, Ok(Object::List(vec![sym("b")])));
    assert!(toks.is_empty());
}
