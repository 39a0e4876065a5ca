use vstd::prelude::*;

verus! {

/// The characters that separate tokens: space, tab, newline, carriage return.
pub open spec fn is_ws(c: char) -> bool {
    c == ' ' || c == '\t' || c == '\n' || c == '\r'
}

/// `s` with its leading run of whitespace removed.
pub open spec fn skip_ws(s: Seq<char>) -> Seq<char>
    decreases s.len(),
{
    if s.len() > 0 && is_ws(s[0]) {
        skip_ws(s.drop_first())
    } else {
        s
    }
}

/// Skipping whitespace never lengthens the text, and what it drops is
/// whitespace at the front.
pub proof fn lemma_skip_ws_suffix(s: Seq<char>)
    ensures
        skip_ws(s).len() <= s.len(),
        skip_ws(s) == s.skip(s.len() - skip_ws(s).len()),
        forall|i: int| 0 <= i < s.len() - skip_ws(s).len() ==> is_ws(#[trigger] s[i]),
    decreases s.len(),
{
    if s.len() > 0 && is_ws(s[0]) {
        lemma_skip_ws_suffix(s.drop_first());
        let k = s.len() - skip_ws(s).len();
        assert(s.drop_first().skip(k - 1) =~= s.skip(k));
        assert forall|i: int| 0 <= i < k implies is_ws(#[trigger] s[i]) by {
            if i > 0 {
                assert(s[i] == s.drop_first()[i - 1]);
            }
        }
    } else {
        assert(s.skip(0) =~= s);
    }
}

/// Whether `c` is one of the whitespace characters between tokens.
pub fn is_whitespace(c: char) -> (r: bool)
    ensures
        r == is_ws(c),
{
    c == ' ' || c == '\t' || c == '\n' || c == '\r'
}

/// Drops the leading run of whitespace.
pub fn skip_whitespace<'a>(s: &'a str) -> (r: &'a str)
    ensures
        r@ == skip_ws(s@),
{
    let n = s.unicode_len();
    let mut i: usize = 0;
    assert(s@.skip(0) =~= s@);
    loop
        invariant
            i <= n,
            n == s@.len(),
            skip_ws(s@) == skip_ws(s@.skip(i as int)),
        ensures
            i <= n,
            skip_ws(s@) == s@.skip(i as int),
        decreases n - i,
    {
        if i == n {
            assert(s@.skip(i as int) =~= Seq::<char>::empty());
            break;
        }
        if !is_whitespace(s.get_char(i)) {
            break;
        }
        assert(s@.skip(i as int).drop_first() =~= s@.skip(i + 1));
        i = i + 1;
    }
    assert(s@.skip(i as int) =~= s@.subrange(i as int, n as int));
    s.substring_char(i, n)
}

} // verus!
