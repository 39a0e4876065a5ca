use vstd::prelude::*;
use crate::recognize::{recognized, ws_spec, bare_spec, ws_eater, Mismatch};
use crate::scan::{skip_ws, lemma_skip_ws_suffix};
use crate::token::{Recognizer, Token, TokenView, default_order, priority_order};

verus! {

/// One step of the tokenizer: the first recognizer of `order` that matches
/// the front of `s` gives the remainder and the token.
pub open spec fn step_spec(order: Seq<Recognizer>, s: Seq<char>) -> Option<(Seq<char>, TokenView)>
    decreases order.len(),
{
    if order.len() == 0 {
        None
    } else {
        match ws_spec(order[0], s) {
            Some(found) => Some(found),
            None => step_spec(order.drop_first(), s),
        }
    }
}

/// The whole tokenizer: steps while one succeeds, then the remainder and the
/// tokens in the order they were read.
pub open spec fn tokenize_spec(order: Seq<Recognizer>, s: Seq<char>) -> (Seq<char>, Seq<TokenView>)
    decreases s.len(),
{
    match step_spec(order, s) {
        Some((rest, tok)) => if rest.len() < s.len() {
            let (r, ts) = tokenize_spec(order, rest);
            (r, seq![tok] + ts)
        } else {
            (s, Seq::empty())
        },
        None => (s, Seq::empty()),
    }
}

/// The tokens of a vector, in the model.
pub open spec fn tokens_view(v: Seq<Token>) -> Seq<TokenView> {
    v.map_values(|t: Token| t@)
}

/// A successful recognition consumes at least one character.
pub proof fn lemma_recognizer_consumes(r: Recognizer, s: Seq<char>)
    ensures
        ws_spec(r, s) matches Some((rest, _)) ==> rest.len() < s.len(),
{
    lemma_skip_ws_suffix(s);
    if let Some((u, _)) = bare_spec(r, skip_ws(s)) {
        lemma_skip_ws_suffix(u);
    }
}

/// A successful step consumes at least one character.
pub proof fn lemma_step_consumes(order: Seq<Recognizer>, s: Seq<char>)
    ensures
        step_spec(order, s) matches Some((rest, _)) ==> rest.len() < s.len(),
    decreases order.len(),
{
    if order.len() > 0 {
        lemma_recognizer_consumes(order[0], s);
        lemma_step_consumes(order.drop_first(), s);
    }
}

/// Tries the recognizers of `order` in turn on `input`; the first that
/// matches wins.
pub fn parse_token_in<'a>(order: &[Recognizer], input: &'a str) -> (res: Result<(&'a str, Token), Mismatch<'a>>)
    ensures
        recognized(res) == step_spec(order@, input@),
        res matches Err(e) ==> e.input@ == input@,
{
    let mut i: usize = 0;
    assert(order@.skip(0) =~= order@);
    while i < order.len()
        invariant
            i <= order@.len(),
            step_spec(order@, input@) == step_spec(order@.skip(i as int), input@),
        decreases order@.len() - i,
    {
        match ws_eater(order[i], input) {
            Ok(found) => {
                return Ok(found);
            },
            Err(_) => {
                assert(order@.skip(i as int).drop_first() =~= order@.skip(i + 1));
                i = i + 1;
            },
        }
    }
    Err(Mismatch { input })
}

/// Tries every recognizer, the symbols first and the number last.
pub fn parse_token<'a>(input: &'a str) -> (res: Result<(&'a str, Token), Mismatch<'a>>)
    ensures
        recognized(res) == step_spec(default_order(), input@),
        res matches Err(e) ==> e.input@ == input@,
{
    let order = priority_order();
    parse_token_in(order.as_slice(), input)
}

/// Reads tokens from `input` with the recognizers of `order` until none
/// matches; returns the unread remainder and the tokens. It never fails.
pub fn tokenize_in<'a>(order: &[Recognizer], input: &'a str) -> (res: (&'a str, Vec<Token>))
    ensures
        (res.0@, tokens_view(res.1@)) == tokenize_spec(order@, input@),
{
    let mut rest = input;
    let mut toks: Vec<Token> = Vec::new();
    assert(tokens_view(toks@) + tokenize_spec(order@, rest@).1 =~= tokenize_spec(order@, input@).1);
    loop
        invariant
            tokenize_spec(order@, input@) == (
                tokenize_spec(order@, rest@).0,
                tokens_view(toks@) + tokenize_spec(order@, rest@).1,
            ),
        ensures
            tokenize_spec(order@, input@) == (rest@, tokens_view(toks@)),
        decreases rest@.len(),
    {
        match parse_token_in(order, rest) {
            Ok((next, tok)) => {
                proof {
                    lemma_step_consumes(order@, rest@);
                }
                let ghost before = toks@;
                toks.push(tok);
                assert(tokens_view(toks@) =~= tokens_view(before).push(tok@));
                assert(tokens_view(toks@) + tokenize_spec(order@, next@).1 =~= tokens_view(before)
                    + tokenize_spec(order@, rest@).1);
                rest = next;
            },
            Err(_) => {
                assert(tokens_view(toks@) + Seq::<TokenView>::empty() =~= tokens_view(toks@));
                break;
            },
        }
    }
    (rest, toks)
}

/// Reads tokens from `input`, trying the symbols first and the number last,
/// until none matches; returns the unread remainder and the tokens.
pub fn tokenize<'a>(input: &'a str) -> (res: (&'a str, Vec<Token>))
    ensures
        (res.0@, tokens_view(res.1@)) == tokenize_spec(default_order(), input@),
{
    let order = priority_order();
    tokenize_in(order.as_slice(), input)
}

} // verus!
