//! Shared JSON primitives: booleans, fixed literal chunks, and the lemmas
//! that read an emitted chunk back.

use vstd::prelude::*;
use vstd::string::StrSliceExecFns;

verus! {

/// The JSON text of a boolean.
pub open spec fn json_bool(b: bool) -> Seq<char> {
    if b {
        "true"@
    } else {
        "false"@
    }
}

/// Exec twin of [`json_bool`].
pub fn json_bool_text(b: bool) -> (r: &'static str)
    ensures
        r@ == json_bool(b),
{
    if b {
        "true"
    } else {
        "false"
    }
}

/// The literal `lit` standing at `i`.
pub open spec fn sp_lit(s: Seq<char>, i: int, lit: Seq<char>) -> Option<int> {
    if 0 <= i && i + lit.len() <= s.len() && s.subrange(i, i + lit.len() as int) == lit {
        Some(i + lit.len() as int)
    } else {
        None
    }
}

/// A JSON boolean at `i`.
pub open spec fn sp_bool(s: Seq<char>, i: int) -> Option<(bool, int)> {
    match sp_lit(s, i, "true"@) {
        Some(j) => Some((true, j)),
        None => match sp_lit(s, i, "false"@) {
            Some(j) => Some((false, j)),
            None => None,
        },
    }
}

/// Reads the literal `lit` at `i` as [`sp_lit`] says.
pub fn parse_lit(s: &str, i: usize, lit: &str) -> (r: Option<usize>)
    requires
        i <= s@.len(),
    ensures
        match r {
            Some(j) => sp_lit(s@, i as int, lit@) == Some(j as int) && i <= j <= s@.len() && j == i
                + lit@.len(),
            None => sp_lit(s@, i as int, lit@) is None,
        },
{
    let n = s.unicode_len();
    let m = lit.unicode_len();
    if m > n - i {
        return None;
    }
    let mut k: usize = 0;
    while k < m
        invariant
            0 <= k <= m,
            i + m <= n,
            n as nat == s@.len(),
            m as nat == lit@.len(),
            forall|q: int| 0 <= q < k ==> s@[i + q] == lit@[q],
        decreases m - k,
    {
        if s.get_char(i + k) != lit.get_char(k) {
            proof {
                assert(s@.subrange(i as int, i + m) [k as int] == s@[i + k]);
            }
            return None;
        }
        k += 1;
    }
    proof {
        assert(s@.subrange(i as int, i + m) =~= lit@);
    }
    Some(i + m)
}

/// Reads a JSON boolean at `i` as [`sp_bool`] says.
pub fn parse_bool(s: &str, i: usize) -> (r: Option<(bool, usize)>)
    requires
        i <= s@.len(),
    ensures
        match r {
            Some((b, j)) => sp_bool(s@, i as int) == Some((b, j as int)) && i < j <= s@.len(),
            None => sp_bool(s@, i as int) is None,
        },
{
    proof {
        reveal_strlit("true");
        reveal_strlit("false");
    }
    match parse_lit(s, i, "true") {
        Some(j) => Some((true, j)),
        None => match parse_lit(s, i, "false") {
            Some(j) => Some((false, j)),
            None => None,
        },
    }
}

/// Concatenation of texts is associative.
pub proof fn lemma_assoc(a: Seq<char>, b: Seq<char>, c: Seq<char>)
    ensures
        (a + b) + c == a + (b + c),
{
    assert((a + b) + c =~= a + (b + c));
}

/// A literal chunk standing right after `pre` is found there.
pub proof fn lemma_parse_lit_chunk(pre: Seq<char>, lit: Seq<char>, tail: Seq<char>)
    ensures
        sp_lit(pre + lit + tail, pre.len() as int, lit) == Some(
            pre.len() as int + lit.len() as int,
        ),
{
    let s = pre + lit + tail;
    assert(s.subrange(pre.len() as int, pre.len() as int + lit.len() as int) =~= lit);
}

/// A rendered boolean standing right after `pre` reads back as itself.
pub proof fn lemma_parse_bool_chunk(pre: Seq<char>, b: bool, tail: Seq<char>)
    ensures
        sp_bool(pre + json_bool(b) + tail, pre.len() as int) == Some(
            (b, pre.len() as int + json_bool(b).len() as int),
        ),
{
    reveal_strlit("true");
    reveal_strlit("false");
    let s = pre + json_bool(b) + tail;
    let i = pre.len() as int;
    if b {
        lemma_parse_lit_chunk(pre, "true"@, tail);
    } else {
        assert(s[i] == 'f');
        if sp_lit(s, i, "true"@) is Some {
            assert(s.subrange(i, i + 4)[0] == s[i]);
            assert(false);
        }
        lemma_parse_lit_chunk(pre, "false"@, tail);
    }
}

} // verus!
