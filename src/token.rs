use vstd::prelude::*;

verus! {

/// One lexical unit of an arithmetic expression.
///
/// A number keeps the literal exactly as it was written (`"10.0"`, `"-2e3"`);
/// its value is that text read as a 64-bit float.
#[derive(Debug, Clone, PartialEq)]
pub enum Token {
    Subtraction,
    Addition,
    Multiplication,
    Division,
    Exponentiation,
    OpeningParenthesis,
    ClosingParenthesis,
    Number(String),
}

/// The mathematical model of a token: the same variants, with a number's
/// literal as a sequence of characters.
pub enum TokenView {
    Subtraction,
    Addition,
    Multiplication,
    Division,
    Exponentiation,
    OpeningParenthesis,
    ClosingParenthesis,
    Number(Seq<char>),
}

impl View for Token {
    type V = TokenView;

    open spec fn view(&self) -> TokenView {
        match self {
            Token::Subtraction => TokenView::Subtraction,
            Token::Addition => TokenView::Addition,
            Token::Multiplication => TokenView::Multiplication,
            Token::Division => TokenView::Division,
            Token::Exponentiation => TokenView::Exponentiation,
            Token::OpeningParenthesis => TokenView::OpeningParenthesis,
            Token::ClosingParenthesis => TokenView::ClosingParenthesis,
            Token::Number(s) => TokenView::Number(s@),
        }
    }
}

/// The eight recognizers, one per kind of token.
#[derive(Debug, Clone, Copy, PartialEq, Eq, Structural)]
pub enum Recognizer {
    Addition,
    Subtraction,
    Multiplication,
    Division,
    Exponentiation,
    OpeningParenthesis,
    ClosingParenthesis,
    Number,
}

/// The character that a symbol recognizer matches; `None` for numbers.
pub open spec fn symbol_char(r: Recognizer) -> Option<char> {
    match r {
        Recognizer::Addition => Some('+'),
        Recognizer::Subtraction => Some('-'),
        Recognizer::Multiplication => Some('*'),
        Recognizer::Division => Some('/'),
        Recognizer::Exponentiation => Some('^'),
        Recognizer::OpeningParenthesis => Some('('),
        Recognizer::ClosingParenthesis => Some(')'),
        Recognizer::Number => None,
    }
}

/// The token that a symbol recognizer produces.
pub open spec fn symbol_token(r: Recognizer) -> TokenView {
    match r {
        Recognizer::Addition => TokenView::Addition,
        Recognizer::Subtraction => TokenView::Subtraction,
        Recognizer::Multiplication => TokenView::Multiplication,
        Recognizer::Division => TokenView::Division,
        Recognizer::Exponentiation => TokenView::Exponentiation,
        Recognizer::OpeningParenthesis => TokenView::OpeningParenthesis,
        Recognizer::ClosingParenthesis => TokenView::ClosingParenthesis,
        Recognizer::Number => TokenView::Number(Seq::empty()),
    }
}

/// The order in which the tokenizer tries the recognizers: the seven
/// symbols first, the number last as the catch-all.
pub open spec fn default_order() -> Seq<Recognizer> {
    seq![
        Recognizer::Addition,
        Recognizer::Subtraction,
        Recognizer::Multiplication,
        Recognizer::Division,
        Recognizer::Exponentiation,
        Recognizer::OpeningParenthesis,
        Recognizer::ClosingParenthesis,
        Recognizer::Number,
    ]
}

impl Recognizer {
    /// The character this recognizer matches, or `None` for the number recognizer.
    pub fn symbol(self) -> (r: Option<char>)
        ensures
            r == symbol_char(self),
    {
        match self {
            Recognizer::Addition => Some('+'),
            Recognizer::Subtraction => Some('-'),
            Recognizer::Multiplication => Some('*'),
            Recognizer::Division => Some('/'),
            Recognizer::Exponentiation => Some('^'),
            Recognizer::OpeningParenthesis => Some('('),
            Recognizer::ClosingParenthesis => Some(')'),
            Recognizer::Number => None,
        }
    }

    /// The token a symbol recognizer produces.
    pub fn symbol_token(self) -> (t: Token)
        requires
            self != Recognizer::Number,
        ensures
            t@ == symbol_token(self),
    {
        match self {
            Recognizer::Addition => Token::Addition,
            Recognizer::Subtraction => Token::Subtraction,
            Recognizer::Multiplication => Token::Multiplication,
            Recognizer::Division => Token::Division,
            Recognizer::Exponentiation => Token::Exponentiation,
            Recognizer::OpeningParenthesis => Token::OpeningParenthesis,
            Recognizer::ClosingParenthesis => Token::ClosingParenthesis,
            Recognizer::Number => Token::Number(String::new()),
        }
    }
}

/// The recognizers in the order the tokenizer tries them.
pub fn priority_order() -> (r: Vec<Recognizer>)
    ensures
        r@ == default_order(),
{
    let r = vec![
        Recognizer::Addition,
        Recognizer::Subtraction,
        Recognizer::Multiplication,
        Recognizer::Division,
        Recognizer::Exponentiation,
        Recognizer::OpeningParenthesis,
        Recognizer::ClosingParenthesis,
        Recognizer::Number,
    ];
    assert(r@ =~= default_order());
    r
}

} // verus!
