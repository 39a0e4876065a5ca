use vstd::prelude::*;
use crate::scan::{skip_ws, skip_whitespace};
use crate::token::{Recognizer, Token, TokenView, symbol_char, symbol_token};

verus! {

/// The float literal that nom's `double` reads at the front of `s`, if any.
pub uninterp spec fn float_literal(s: Seq<char>) -> Option<Seq<char>>;

/// Relies on nom::number::complete::double, run under nom::combinator::recognize:
/// on success the text splits into the non-empty literal that `double` read at
/// its front and the rest; on any error (a mismatch, or a cut in an exponent)
/// no literal is read.
#[verifier::external_body]
fn scan_float<'a>(s: &'a str) -> (r: Option<(&'a str, &'a str)>)
    ensures
        r is Some <==> float_literal(s@) is Some,
        r matches Some((lit, rest)) ==> lit@ == float_literal(s@)->0 && s@ == lit@ + rest@
            && lit@.len() > 0,
{
    match nom::combinator::recognize(
        nom::number::complete::double::<&str, nom::error::Error<&str>>,
    )(s) {
        Ok((rest, lit)) => Some((lit, rest)),
        Err(_) => None,
    }
}

/// A recognizer found nothing to match at the front of `input`, which it
/// hands back untouched.
#[derive(Debug, Clone, PartialEq)]
pub struct Mismatch<'a> {
    pub input: &'a str,
}

/// What a recognition returns, in the model: the remainder and the token, or
/// nothing.
pub open spec fn recognized<'a>(r: Result<(&'a str, Token), Mismatch<'a>>) -> Option<(Seq<char>, TokenView)> {
    match r {
        Ok((rest, tok)) => Some((rest@, tok@)),
        Err(_) => None,
    }
}

/// Whether `lit` is a float literal read at the front of `s`: non-empty and a
/// prefix of it.
pub open spec fn is_literal_of(lit: Seq<char>, s: Seq<char>) -> bool {
    0 < lit.len() <= s.len() && s.take(lit.len() as int) == lit
}

/// Recognition without whitespace: a symbol matches its one character at the
/// front of `s`; a number matches the float literal that `double` reads there.
pub open spec fn bare_spec(r: Recognizer, s: Seq<char>) -> Option<(Seq<char>, TokenView)> {
    match symbol_char(r) {
        Some(c) => if s.len() > 0 && s[0] == c {
            Some((s.drop_first(), symbol_token(r)))
        } else {
            None
        },
        None => match float_literal(s) {
            Some(lit) => if is_literal_of(lit, s) {
                Some((s.skip(lit.len() as int), TokenView::Number(lit)))
            } else {
                None
            },
            None => None,
        },
    }
}

/// Recognition that tolerates whitespace: skip a run of whitespace, match, and
/// on success skip the run of whitespace that follows. On failure nothing is
/// consumed, leading whitespace included.
pub open spec fn ws_spec(r: Recognizer, s: Seq<char>) -> Option<(Seq<char>, TokenView)> {
    match bare_spec(r, skip_ws(s)) {
        Some((rest, tok)) => Some((skip_ws(rest), tok)),
        None => None,
    }
}

/// Matches `r` at the very front of `input`, whitespace not skipped.
pub fn recognize_bare<'a>(r: Recognizer, input: &'a str) -> (res: Result<(&'a str, Token), Mismatch<'a>>)
    ensures
        recognized(res) == bare_spec(r, input@),
        res matches Err(e) ==> e.input@ == input@,
{
    match r.symbol() {
        Some(c) => {
            let n = input.unicode_len();
            if n > 0 && input.get_char(0) == c {
                let rest = input.substring_char(1, n);
                assert(rest@ =~= input@.drop_first());
                Ok((rest, r.symbol_token()))
            } else {
                Err(Mismatch { input })
            }
        },
        None => {
            let scanned = scan_float(input);
            proof {
                if let Some((lit, rest)) = scanned {
                    assert(input@.take(lit@.len() as int) =~= lit@);
                    assert(input@.skip(lit@.len() as int) =~= rest@);
                }
            }
            number_from_scan(input, scanned)
        },
    }
}

/// The number token for what a float scan of `input` gave: the literal that
/// was read and the rest of the text, or nothing.
pub open spec fn number_spec<'a>(scanned: Option<(&'a str, &'a str)>) -> Option<(Seq<char>, TokenView)> {
    match scanned {
        Some((lit, rest)) => Some((rest@, TokenView::Number(lit@))),
        None => None,
    }
}

/// Builds the result of number recognition on `input` from a float scan of it.
pub fn number_from_scan<'a>(input: &'a str, scanned: Option<(&'a str, &'a str)>) -> (res: Result<(&'a str, Token), Mismatch<'a>>)
    requires
        scanned matches Some((lit, rest)) ==> input@ == lit@ + rest@ && lit@.len() > 0,
    ensures
        recognized(res) == number_spec(scanned),
        res matches Err(e) ==> e.input@ == input@,
{
    match scanned {
        Some((lit, rest)) => Ok((rest, Token::Number(lit.to_owned()))),
        None => Err(Mismatch { input }),
    }
}

/// Matches `inner` with the whitespace around it eaten: a run before the
/// match and, on success, a run after it.
pub fn ws_eater<'a>(inner: Recognizer, input: &'a str) -> (res: Result<(&'a str, Token), Mismatch<'a>>)
    ensures
        recognized(res) == ws_spec(inner, input@),
        res matches Err(e) ==> e.input@ == input@,
{
    let t = skip_whitespace(input);
    match recognize_bare(inner, t) {
        Ok((rest, tok)) => Ok((skip_whitespace(rest), tok)),
        Err(_) => Err(Mismatch { input }),
    }
}

/// Recognizes `-`, whitespace around it skipped.
pub fn parse_sub<'a>(input: &'a str) -> (res: Result<(&'a str, Token), Mismatch<'a>>)
    ensures
        recognized(res) == ws_spec(Recognizer::Subtraction, input@),
        res matches Err(e) ==> e.input@ == input@,
{
    ws_eater(Recognizer::Subtraction, input)
}

/// Recognizes `+`, whitespace around it skipped.
pub fn parse_add<'a>(input: &'a str) -> (res: Result<(&'a str, Token), Mismatch<'a>>)
    ensures
        recognized(res) == ws_spec(Recognizer::Addition, input@),
        res matches Err(e) ==> e.input@ == input@,
{
    ws_eater(Recognizer::Addition, input)
}

/// Recognizes `*`, whitespace around it skipped.
pub fn parse_mul<'a>(input: &'a str) -> (res: Result<(&'a str, Token), Mismatch<'a>>)
    ensures
        recognized(res) == ws_spec(Recognizer::Multiplication, input@),
        res matches Err(e) ==> e.input@ == input@,
{
    ws_eater(Recognizer::Multiplication, input)
}

/// Recognizes `/`, whitespace around it skipped.
pub fn parse_div<'a>(input: &'a str) -> (res: Result<(&'a str, Token), Mismatch<'a>>)
    ensures
        recognized(res) == ws_spec(Recognizer::Division, input@),
        res matches Err(e) ==> e.input@ == input@,
{
    ws_eater(Recognizer::Division, input)
}

/// Recognizes `^`, whitespace around it skipped.
pub fn parse_exp<'a>(input: &'a str) -> (res: Result<(&'a str, Token), Mismatch<'a>>)
    ensures
        recognized(res) == ws_spec(Recognizer::Exponentiation, input@),
        res matches Err(e) ==> e.input@ == input@,
{
    ws_eater(Recognizer::Exponentiation, input)
}

/// Recognizes `(`, whitespace around it skipped.
pub fn parse_open_paren<'a>(input: &'a str) -> (res: Result<(&'a str, Token), Mismatch<'a>>)
    ensures
        recognized(res) == ws_spec(Recognizer::OpeningParenthesis, input@),
        res matches Err(e) ==> e.input@ == input@,
{
    ws_eater(Recognizer::OpeningParenthesis, input)
}

/// Recognizes `)`, whitespace around it skipped.
pub fn parse_close_paren<'a>(input: &'a str) -> (res: Result<(&'a str, Token), Mismatch<'a>>)
    ensures
        recognized(res) == ws_spec(Recognizer::ClosingParenthesis, input@),
        res matches Err(e) ==> e.input@ == input@,
{
    ws_eater(Recognizer::ClosingParenthesis, input)
}

/// Recognizes a float literal, whitespace around it skipped.
pub fn parse_number<'a>(input: &'a str) -> (res: Result<(&'a str, Token), Mismatch<'a>>)
    ensures
        recognized(res) == ws_spec(Recognizer::Number, input@),
        res matches Err(e) ==> e.input@ == input@,
{
    ws_eater(Recognizer::Number, input)
}

} // verus!
