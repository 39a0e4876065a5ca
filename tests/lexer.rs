use math_parser::recognize::{
    number_from_scan, parse_add, parse_close_paren, parse_div, parse_exp, parse_mul, parse_number,
    parse_open_paren, parse_sub, recognize_bare, ws_eater, Mismatch,
};
use math_parser::scan::{is_whitespace, skip_whitespace};
use math_parser::token::{priority_order, Recognizer, Token};
use math_parser::tokenizer::{parse_token, parse_token_in, tokenize, tokenize_in};

fn value(tok: &Token) -> f64 {
    match tok {
        Token::Number(text) => text.parse::<f64>().unwrap(),
        other => panic!("not a number: {:?}", other),
    }
}


#[test]
fn test_sub() {
    assert_eq!(parse_sub("-10"), Ok(("10", Token::Subtraction)));
}

#[test]
fn test_add() {
    assert_eq!(parse_add("+10"), Ok(("10", Token::Addition)));
}

#[test]
fn test_mul() {
    assert_eq!(parse_mul("*10"), Ok(("10", Token::Multiplication)));
}

#[test]
fn test_div() {
    assert_eq!(parse_div("/10"), Ok(("10", Token::Division)));
}

#[test]
fn test_exp() {
    assert_eq!(parse_exp("^10"), Ok(("10", Token::Exponentiation)));
}

#[test]
fn test_open_paren() {
    assert_eq!(parse_open_paren("("), Ok(("", Token::OpeningParenthesis)));
}

#[test]
fn test_close_paren() {
    assert_eq!(parse_close_paren(")"), Ok(("", Token::ClosingParenthesis)));
}

#[test]
fn test_number() {
    for (input, output, remainder) in [("10.0", 10., ""), ("10.0+", 10., "+"), ("10.0+1", 10., "+1")] {
        let (rest, tok) = parse_number(input).unwrap();
        assert_eq!(rest, remainder);
        assert_eq!(value(&tok), output);
    }
}

#[test]
fn test_tokenizer() {
    for input in ["1+1", "1 + 1"] {
        let (rest, tokens) = tokenize(input);
        assert_eq!(rest, "");
        assert_eq!(tokens.len(), 3);
        assert_eq!(value(&tokens[0]), 1.);
        assert_eq!(tokens[1], Token::Addition);
        assert_eq!(value(&tokens[2]), 1.);
    }
}

#[test]
fn number_keeps_its_literal() {
    assert_eq!(parse_number("10.0+1"), Ok(("+1", Token::Number("10.0".to_string()))));
    assert_eq!(parse_number(" 3e2 )"), Ok((")", Token::Number("3e2".to_string()))));
    assert_eq!(parse_number("-.5"), Ok(("", Token::Number("-.5".to_string()))));
    assert_eq!(parse_number("inf*"), Ok(("*", Token::Number("inf".to_string()))));
}

#[test]
fn number_mismatch_keeps_input() {
    assert_eq!(parse_number("  x1"), Err(Mismatch { input: "  x1" }));
    assert_eq!(parse_number(""), Err(Mismatch { input: "" }));
    // an exponent marker with no digits after it is no literal
    assert_eq!(parse_number("1e"), Err(Mismatch { input: "1e" }));
}

#[test]
fn symbol_takes_only_its_character() {
    assert_eq!(recognize_bare(Recognizer::Addition, "+ 2"), Ok((" 2", Token::Addition)));
    assert_eq!(recognize_bare(Recognizer::Subtraction, "-"), Ok(("", Token::Subtraction)));
    assert_eq!(recognize_bare(Recognizer::Multiplication, "**"), Ok(("*", Token::Multiplication)));
}

#[test]
fn symbol_mismatch_keeps_input() {
    assert_eq!(recognize_bare(Recognizer::Addition, " +"), Err(Mismatch { input: " +" }));
    assert_eq!(parse_sub("+10"), Err(Mismatch { input: "+10" }));
    assert_eq!(parse_open_paren("  )"), Err(Mismatch { input: "  )" }));
    assert_eq!(parse_div(""), Err(Mismatch { input: "" }));
}

#[test]
fn whitespace_around_symbol_is_dropped() {
    assert_eq!(parse_exp(" \t^\n\r 2"), Ok(("2", Token::Exponentiation)));
    assert_eq!(ws_eater(Recognizer::ClosingParenthesis, "\n)  "), Ok(("", Token::ClosingParenthesis)));
    assert_eq!(parse_mul("*"), parse_mul("  *  "));
}

#[test]
fn whitespace_helpers() {
    assert!(is_whitespace('\t'));
    assert!(!is_whitespace('x'));
    assert_eq!(skip_whitespace(" \r\n\tab c"), "ab c");
    assert_eq!(skip_whitespace("   "), "");
}

#[test]
fn number_from_scan_builds_token() {
    assert_eq!(number_from_scan("2.5+x", Some(("2.5", "+x"))), Ok(("+x", Token::Number("2.5".to_string()))));
    assert_eq!(number_from_scan("+x", None), Err(Mismatch { input: "+x" }));
}

#[test]
fn parse_token_prefers_symbols() {
    assert_eq!(parse_token("-1"), Ok(("1", Token::Subtraction)));
    assert_eq!(parse_token("+1"), Ok(("1", Token::Addition)));
    assert_eq!(parse_token(" 7 "), Ok(("", Token::Number("7".to_string()))));
    assert_eq!(parse_token("$"), Err(Mismatch { input: "$" }));
}

#[test]
fn tokenize_expression() {
    let (rest, tokens) = tokenize(" (1.5 - 2) * 3 ^ 4 / 5e1 ");
    assert_eq!(rest, "");
    assert_eq!(
        tokens,
        vec![
            Token::OpeningParenthesis,
            Token::Number("1.5".to_string()),
            Token::Subtraction,
            Token::Number("2".to_string()),
            Token::ClosingParenthesis,
            Token::Multiplication,
            Token::Number("3".to_string()),
            Token::Exponentiation,
            Token::Number("4".to_string()),
            Token::Division,
            Token::Number("5e1".to_string()),
        ]
    );
}

#[test]
fn tokenize_stops_at_unknown_text() {
    assert_eq!(tokenize("1+1 $x"), ("$x", vec![Token::Number("1".to_string()), Token::Addition, Token::Number("1".to_string())]));
    assert_eq!(tokenize("abc"), ("abc", vec![]));
}

#[test]
fn tokenize_empty_input() {
    assert_eq!(tokenize(""), ("", vec![]));
}

#[test]
fn retokenizing_remainder_makes_no_progress() {
    for input in ["1+1 $x", "2 * ? 3", "%", "4e"] {
        let (rest, _) = tokenize(input);
        assert_eq!(tokenize(rest), (rest, vec![]));
    }
}

#[test]
fn symbol_order_does_not_matter() {
    let permuted = [
        Recognizer::ClosingParenthesis,
        Recognizer::Exponentiation,
        Recognizer::Subtraction,
        Recognizer::OpeningParenthesis,
        Recognizer::Division,
        Recognizer::Addition,
        Recognizer::Multiplication,
        Recognizer::Number,
    ];
    for input in ["(1-2)*3^4/5+6", "-1 + -2", "1 - - 1", "+3e-2-", ""] {
        assert_eq!(tokenize_in(&permuted, input), tokenize(input));
        assert_eq!(parse_token_in(&permuted, input), parse_token(input));
    }
}

#[test]
fn number_first_swallows_signs() {
    let number_first = [
        Recognizer::Number,
        Recognizer::Addition,
        Recognizer::Subtraction,
        Recognizer::Multiplication,
        Recognizer::Division,
        Recognizer::Exponentiation,
        Recognizer::OpeningParenthesis,
        Recognizer::ClosingParenthesis,
    ];
    let (rest, tokens) = tokenize("1-1");
    assert_eq!(rest, "");
    assert_eq!(tokens, vec![Token::Number("1".to_string()), Token::Subtraction, Token::Number("1".to_string())]);
    let (rest, tokens) = tokenize_in(&number_first, "1-1");
    assert_eq!(rest, "");
    assert_eq!(tokens, vec![Token::Number("1".to_string()), Token::Number("-1".to_string())]);
    assert_eq!(parse_token_in(&number_first, "+2"), Ok(("", Token::Number("+2".to_string()))));
}

#[test]
fn recognizer_symbols_and_order() {
    assert_eq!(Recognizer::Exponentiation.symbol(), Some('^'));
    assert_eq!(Recognizer::Number.symbol(), None);
    assert_eq!(Recognizer::OpeningParenthesis.symbol_token(), Token::OpeningParenthesis);
    let order = priority_order();
    assert_eq!(order.len(), 8);
    assert_eq!(order[0], Recognizer::Addition);
    assert_eq!(order[1], Recognizer::Subtraction);
    assert_eq!(order[7], Recognizer::Number);
}
