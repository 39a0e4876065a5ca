use vstd::prelude::*;
use crate::recognize::{bare_spec, ws_spec};
use crate::scan::{is_ws, skip_ws};
use crate::token::{Recognizer, default_order, symbol_char, symbol_token};
use crate::tokenizer::{step_spec, tokenize_spec};

verus! {

/// Whether every character of `w` is whitespace.
pub open spec fn all_ws(w: Seq<char>) -> bool {
    forall|i: int| 0 <= i < w.len() ==> is_ws(#[trigger] w[i])
}

/// Whether `t` is empty or starts with a character that is not whitespace.
pub open spec fn starts_clean(t: Seq<char>) -> bool {
    t.len() == 0 || !is_ws(t[0])
}

/// Whether `p` holds the seven symbol recognizers, in some order, and nothing else.
pub open spec fn is_symbol_order(p: Seq<Recognizer>) -> bool {
    &&& forall|i: int| 0 <= i < p.len() ==> #[trigger] p[i] != Recognizer::Number
    &&& forall|r: Recognizer| r != Recognizer::Number ==> p.contains(r)
}

/// A run of whitespace in front of clean text is skipped whole.
pub proof fn lemma_skip_ws_run(w: Seq<char>, t: Seq<char>)
    requires
        all_ws(w),
        starts_clean(t),
    ensures
        skip_ws(w + t) == t,
    decreases w.len(),
{
    if w.len() == 0 {
        assert(w + t =~= t);
    } else {
        assert((w + t)[0] == w[0]);
        assert((w + t).drop_first() =~= w.drop_first() + t);
        lemma_skip_ws_run(w.drop_first(), t);
    }
}

/// A symbol recognizer takes its character off the front of any text and
/// returns the rest as it was; the whitespace-tolerant one does the same when
/// the rest does not start with whitespace.
pub proof fn lemma_symbol_takes_its_character(r: Recognizer, rest: Seq<char>)
    requires
        r != Recognizer::Number,
    ensures
        bare_spec(r, seq![symbol_char(r)->0] + rest) == Some((rest, symbol_token(r))),
        starts_clean(rest) ==> ws_spec(r, seq![symbol_char(r)->0] + rest) == Some((
            rest,
            symbol_token(r),
        )),
{
    let s = seq![symbol_char(r)->0] + rest;
    assert(s.drop_first() =~= rest);
    assert(s[0] == symbol_char(r)->0);
    assert(skip_ws(s) == s);
    if starts_clean(rest) {
        lemma_skip_ws_run(Seq::empty(), rest);
        assert(Seq::<char>::empty() + rest =~= rest);
    }
}

/// A symbol recognizer fails on text that does not start with its character;
/// the whitespace-tolerant one fails when the text does not start with it once
/// leading whitespace is skipped.
pub proof fn lemma_symbol_mismatch(r: Recognizer, s: Seq<char>)
    requires
        r != Recognizer::Number,
    ensures
        !(s.len() > 0 && s[0] == symbol_char(r)->0) ==> bare_spec(r, s) is None,
        !(skip_ws(s).len() > 0 && skip_ws(s)[0] == symbol_char(r)->0) ==> ws_spec(r, s) is None,
{
}

/// Whitespace around a match changes nothing but the whitespace: after a run
/// of whitespace, on text that does not start with whitespace, any tolerant
/// recognizer returns what the bare one returns on that text, with the run of
/// whitespace after the match dropped as well. On failure both fail.
pub proof fn lemma_whitespace_tolerance(r: Recognizer, w: Seq<char>, t: Seq<char>)
    requires
        all_ws(w),
        starts_clean(t),
    ensures
        ws_spec(r, w + t) == match bare_spec(r, t) {
            Some((rest, tok)) => Some((skip_ws(rest), tok)),
            None => None,
        },
{
    lemma_skip_ws_run(w, t);
}

/// A symbol with runs of whitespace on both sides is recognized as the bare
/// symbol is, both runs discarded.
pub proof fn lemma_symbol_between_whitespace(r: Recognizer, w1: Seq<char>, w2: Seq<char>, rest: Seq<char>)
    requires
        r != Recognizer::Number,
        all_ws(w1),
        all_ws(w2),
        starts_clean(rest),
    ensures
        ws_spec(r, w1 + seq![symbol_char(r)->0] + w2 + rest) == Some((rest, symbol_token(r))),
{
    let t = seq![symbol_char(r)->0] + (w2 + rest);
    assert(w1 + seq![symbol_char(r)->0] + w2 + rest =~= w1 + t);
    lemma_whitespace_tolerance(r, w1, t);
    assert(t.drop_first() =~= w2 + rest);
    lemma_skip_ws_run(w2, rest);
}

/// Two symbol recognizers that both match the same text are the same one.
pub proof fn lemma_symbols_exclusive(r1: Recognizer, r2: Recognizer, s: Seq<char>)
    requires
        r1 != Recognizer::Number,
        r2 != Recognizer::Number,
        ws_spec(r1, s) is Some,
        ws_spec(r2, s) is Some,
    ensures
        r1 == r2,
{
}

/// Over symbol recognizers alone, a step gives what any matching one gives,
/// and nothing when none matches.
pub proof fn lemma_step_of_symbols(o: Seq<Recognizer>, s: Seq<char>)
    requires
        forall|i: int| 0 <= i < o.len() ==> #[trigger] o[i] != Recognizer::Number,
    ensures
        forall|i: int| 0 <= i < o.len() && (#[trigger] ws_spec(o[i], s)) is Some ==> step_spec(o, s)
            == ws_spec(o[i], s),
        (forall|i: int| 0 <= i < o.len() ==> (#[trigger] ws_spec(o[i], s)) is None) ==> step_spec(
            o,
            s,
        ) is None,
    decreases o.len(),
{
    if o.len() > 0 {
        let t = o.drop_first();
        assert forall|i: int| 0 <= i < t.len() implies #[trigger] t[i] != Recognizer::Number by {
            assert(t[i] == o[i + 1]);
        }
        lemma_step_of_symbols(t, s);
        assert forall|i: int| 0 <= i < o.len() && (#[trigger] ws_spec(o[i], s)) is Some implies step_spec(o, s)
            == ws_spec(o[i], s) by {
            if ws_spec(o[0], s) is Some {
                lemma_symbols_exclusive(o[0], o[i], s);
            } else {
                assert(o[i] == t[i - 1]);
            }
        }
        if forall|i: int| 0 <= i < o.len() ==> (#[trigger] ws_spec(o[i], s)) is None {
            assert forall|i: int| 0 <= i < t.len() implies (#[trigger] ws_spec(t[i], s)) is None by {
                assert(t[i] == o[i + 1]);
            }
        }
    }
}

/// Trying `x` after the recognizers of `a` is trying `a`, then `x`.
pub proof fn lemma_step_then(a: Seq<Recognizer>, x: Recognizer, s: Seq<char>)
    ensures
        step_spec(a.push(x), s) == match step_spec(a, s) {
            Some(found) => Some(found),
            None => ws_spec(x, s),
        },
    decreases a.len(),
{
    if a.len() == 0 {
        assert(a.push(x).drop_first() =~= Seq::<Recognizer>::empty());
    } else {
        assert(a.push(x).drop_first() =~= a.drop_first().push(x));
        assert(a.push(x)[0] == a[0]);
        lemma_step_then(a.drop_first(), x, s);
    }
}

/// Any order of the symbols, with the number last, takes the same step as the
/// default order.
pub proof fn lemma_symbol_order_step(p: Seq<Recognizer>, s: Seq<char>)
    requires
        is_symbol_order(p),
    ensures
        step_spec(p.push(Recognizer::Number), s) == step_spec(default_order(), s),
{
    let d = default_order().take(7);
    assert(default_order() =~= d.push(Recognizer::Number));
    assert forall|i: int| 0 <= i < d.len() implies #[trigger] d[i] != Recognizer::Number by {}
    lemma_step_of_symbols(p, s);
    lemma_step_of_symbols(d, s);
    lemma_step_then(p, Recognizer::Number, s);
    lemma_step_then(d, Recognizer::Number, s);
    let syms = seq![
        Recognizer::Addition,
        Recognizer::Subtraction,
        Recognizer::Multiplication,
        Recognizer::Division,
        Recognizer::Exponentiation,
        Recognizer::OpeningParenthesis,
        Recognizer::ClosingParenthesis,
    ];
    assert(d =~= syms);
    if exists|r: Recognizer| r != Recognizer::Number && ws_spec(r, s) is Some {
        let r = choose|r: Recognizer| r != Recognizer::Number && ws_spec(r, s) is Some;
        assert(p.contains(r));
        let ip = choose|i: int| 0 <= i < p.len() && p[i] == r;
        let id: int = match r {
            Recognizer::Addition => 0,
            Recognizer::Subtraction => 1,
            Recognizer::Multiplication => 2,
            Recognizer::Division => 3,
            Recognizer::Exponentiation => 4,
            Recognizer::OpeningParenthesis => 5,
            _ => 6,
        };
        assert(d[id] == r);
        assert(ws_spec(p[ip], s) is Some);
        assert(ws_spec(d[id], s) is Some);
    } else {
        assert forall|i: int| 0 <= i < p.len() implies (#[trigger] ws_spec(p[i], s)) is None by {
            assert(p[i] != Recognizer::Number);
        }
        assert forall|i: int| 0 <= i < d.len() implies (#[trigger] ws_spec(d[i], s)) is None by {
            assert(d[i] != Recognizer::Number);
        }
    }
}

/// The order among the seven symbol recognizers does not matter: with the
/// number recognizer last, any order of them tokenizes every text as the
/// default order does.
pub proof fn lemma_symbol_order_irrelevant(p: Seq<Recognizer>, s: Seq<char>)
    requires
        is_symbol_order(p),
    ensures
        tokenize_spec(p.push(Recognizer::Number), s) == tokenize_spec(default_order(), s),
    decreases s.len(),
{
    lemma_symbol_order_step(p, s);
    if let Some((rest, _)) = step_spec(default_order(), s) {
        if rest.len() < s.len() {
            lemma_symbol_order_irrelevant(p, rest);
        }
    }
}

/// Empty text gives no tokens and an empty remainder, whatever the order.
pub proof fn lemma_tokenize_empty(order: Seq<Recognizer>)
    ensures
        tokenize_spec(order, Seq::empty()) == (Seq::<char>::empty(), Seq::<crate::token::TokenView>::empty()),
{
    lemma_step_fails_on_empty(order);
}

/// No recognizer matches empty text.
proof fn lemma_step_fails_on_empty(order: Seq<Recognizer>)
    ensures
        step_spec(order, Seq::empty()) is None,
    decreases order.len(),
{
    if order.len() > 0 {
        assert(skip_ws(Seq::<char>::empty()) == Seq::<char>::empty());
        lemma_step_fails_on_empty(order.drop_first());
    }
}

/// Tokenizing the remainder of a tokenization again makes no progress: it
/// gives no tokens and the remainder back.
pub proof fn lemma_retokenize_remainder(order: Seq<Recognizer>, s: Seq<char>)
    ensures
        tokenize_spec(order, tokenize_spec(order, s).0) == (
            tokenize_spec(order, s).0,
            Seq::<crate::token::TokenView>::empty(),
        ),
    decreases s.len(),
{
    if let Some((rest, _)) = step_spec(order, s) {
        if rest.len() < s.len() {
            lemma_retokenize_remainder(order, rest);
        }
    }
}

} // verus!
