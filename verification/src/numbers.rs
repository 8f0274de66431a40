//! Decimal rendering and parsing of user ids, used by the persisted store
//! file, with the proof that parsing undoes rendering.

use vstd::prelude::*;
use vstd::string::StrSliceExecFns;
use vstd::string::StringExecFns;

verus! {

/// The digit character for `d` (0 through 9).
pub open spec fn dec_digit_char(d: int) -> char {
    if d == 0 {
        '0'
    } else if d == 1 {
        '1'
    } else if d == 2 {
        '2'
    } else if d == 3 {
        '3'
    } else if d == 4 {
        '4'
    } else if d == 5 {
        '5'
    } else if d == 6 {
        '6'
    } else if d == 7 {
        '7'
    } else if d == 8 {
        '8'
    } else {
        '9'
    }
}

/// Is `c` a decimal digit?
pub open spec fn is_digit(c: char) -> bool {
    48 <= c as int <= 57
}

/// The numeric value of a digit character.
pub open spec fn digit_val(c: char) -> int {
    c as int - 48
}

/// The decimal rendering of `n`: most significant digit first, no leading
/// zeros.
pub open spec fn dec_digits(n: nat) -> Seq<char>
    decreases n,
{
    if n < 10 {
        seq![dec_digit_char(n as int)]
    } else {
        dec_digits(n / 10) + seq![dec_digit_char((n % 10) as int)]
    }
}

/// Exec rendering of one digit.
fn digit_text(d: u64) -> (r: &'static str)
    requires
        d < 10,
    ensures
        r@ == seq![dec_digit_char(d as int)],
{
    let r: &'static str = if d == 0 {
        "0"
    } else if d == 1 {
        "1"
    } else if d == 2 {
        "2"
    } else if d == 3 {
        "3"
    } else if d == 4 {
        "4"
    } else if d == 5 {
        "5"
    } else if d == 6 {
        "6"
    } else if d == 7 {
        "7"
    } else if d == 8 {
        "8"
    } else {
        "9"
    };
    proof {
        reveal_strlit("0");
        reveal_strlit("1");
        reveal_strlit("2");
        reveal_strlit("3");
        reveal_strlit("4");
        reveal_strlit("5");
        reveal_strlit("6");
        reveal_strlit("7");
        reveal_strlit("8");
        reveal_strlit("9");
        assert(r@ =~= seq![dec_digit_char(d as int)]);
    }
    r
}

/// Appends the decimal rendering of `n` to `s`.
pub fn append_u64(s: &mut String, n: u64)
    ensures
        final(s)@ == old(s)@ + dec_digits(n as nat),
    decreases n,
{
    if n >= 10 {
        append_u64(s, n / 10);
        s.append(digit_text(n % 10));
        proof {
            assert(s@ =~= old(s)@ + dec_digits(n as nat));
        }
    } else {
        s.append(digit_text(n));
        proof {
            assert(s@ =~= old(s)@ + dec_digits(n as nat));
        }
    }
}

/// What a run of digits starting at `i` parses to, starting from the
/// accumulated value `acc`; too large a number fails.
pub open spec fn sp_u64_loop(s: Seq<char>, i: int, acc: u64) -> Option<(u64, int)>
    decreases s.len() - i,
{
    if 0 <= i < s.len() && is_digit(s[i]) {
        if acc as int * 10 + digit_val(s[i]) <= u64::MAX as int {
            sp_u64_loop(s, i + 1, (acc as int * 10 + digit_val(s[i])) as u64)
        } else {
            None
        }
    } else {
        Some((acc, i))
    }
}

/// The number read at `i`: at least one digit, every following digit taken,
/// value at most `u64::MAX`.
pub open spec fn sp_u64(s: Seq<char>, i: int) -> Option<(u64, int)> {
    if 0 <= i < s.len() && is_digit(s[i]) {
        sp_u64_loop(s, i, 0)
    } else {
        None
    }
}

/// Reads the number at position `i` as [`sp_u64`] says.
pub fn parse_u64(s: &str, i: usize) -> (r: Option<(u64, usize)>)
    requires
        i <= s@.len(),
    ensures
        match r {
            Some((v, j)) => sp_u64(s@, i as int) == Some((v, j as int)) && i < j <= s@.len(),
            None => sp_u64(s@, i as int) is None,
        },
{
    let n = s.unicode_len();
    if i >= n {
        return None;
    }
    let c0 = s.get_char(i);
    let u0 = c0 as u32;
    if !(48 <= u0 && u0 <= 57) {
        return None;
    }
    proof {
        assert(is_digit(s@[i as int]));
    }
    let mut acc: u64 = 0;
    let mut j: usize = i;
    while j < n
        invariant
            i <= j <= n,
            n as nat == s@.len(),
            is_digit(s@[i as int]),
            sp_u64_loop(s@, i as int, 0) == sp_u64_loop(s@, j as int, acc),
        decreases n - j,
    {
        let c = s.get_char(j);
        let u = c as u32;
        if !(48 <= u && u <= 57) {
            proof {
                assert(sp_u64_loop(s@, j as int, acc) == Some((acc, j as int)));
                assert(j != i);
            }
            return Some((acc, j));
        }
        let d = (u - 48) as u64;
        let wide: u128 = (acc as u128) * 10 + (d as u128);
        if wide > u64::MAX as u128 {
            proof {
                assert(sp_u64_loop(s@, j as int, acc) is None);
            }
            return None;
        }
        acc = wide as u64;
        j += 1;
    }
    proof {
        assert(sp_u64_loop(s@, j as int, acc) == Some((acc, j as int)));
    }
    Some((acc, j))
}

/// Every character of `d` is a digit.
pub open spec fn all_digits(d: Seq<char>) -> bool {
    forall|k: int| 0 <= k < d.len() ==> is_digit(#[trigger] d[k])
}

/// The value of a digit run read most significant digit first, starting
/// from `acc`.
pub open spec fn seq_val(d: Seq<char>, acc: int) -> int
    decreases d.len(),
{
    if d.len() == 0 {
        acc
    } else {
        seq_val(d.drop_first(), acc * 10 + digit_val(d[0]))
    }
}

/// Reading digits never shrinks the accumulated value.
proof fn lemma_seq_val_ge(d: Seq<char>, acc: int)
    requires
        acc >= 0,
        all_digits(d),
    ensures
        seq_val(d, acc) >= acc,
    decreases d.len(),
{
    if d.len() > 0 {
        assert(is_digit(d[0]));
        lemma_seq_val_ge(d.drop_first(), acc * 10 + digit_val(d[0]));
    }
}

/// A rendered number is a nonempty run of digits.
pub proof fn lemma_dec_digits_shape(n: nat)
    ensures
        dec_digits(n).len() >= 1,
        all_digits(dec_digits(n)),
    decreases n,
{
    if n >= 10 {
        lemma_dec_digits_shape(n / 10);
    }
}

/// Appending one digit multiplies the run's value by ten and adds it.
proof fn lemma_seq_val_snoc(d: Seq<char>, c: char, acc: int)
    ensures
        seq_val(d + seq![c], acc) == seq_val(d, acc) * 10 + digit_val(c),
    decreases d.len(),
{
    if d.len() == 0 {
        assert((d + seq![c]).drop_first() =~= Seq::<char>::empty());
        assert((d + seq![c])[0] == c);
        assert(seq_val(Seq::<char>::empty(), acc * 10 + digit_val(c)) == acc * 10 + digit_val(c));
    } else {
        assert((d + seq![c]).drop_first() =~= d.drop_first() + seq![c]);
        assert((d + seq![c])[0] == d[0]);
        lemma_seq_val_snoc(d.drop_first(), c, acc * 10 + digit_val(d[0]));
    }
}

/// The value of a rendered number is the number.
pub proof fn lemma_dec_digits_val(n: nat)
    ensures
        seq_val(dec_digits(n), 0) == n,
    decreases n,
{
    if n < 10 {
        assert(dec_digits(n) == seq![dec_digit_char(n as int)]);
        assert(seq_val(seq![dec_digit_char(n as int)], 0) == digit_val(dec_digit_char(n as int)))
            by {
            assert(seq![dec_digit_char(n as int)].drop_first() =~= Seq::<char>::empty());
            assert(seq_val(Seq::<char>::empty(), digit_val(dec_digit_char(n as int)))
                == digit_val(dec_digit_char(n as int)));
        }
    } else {
        lemma_dec_digits_val(n / 10);
        lemma_seq_val_snoc(dec_digits(n / 10), dec_digit_char((n % 10) as int), 0);
    }
}

/// A run of digits at `i`, followed by a non-digit or the end, parses to its
/// value when that value fits.
proof fn lemma_loop_digits(s: Seq<char>, i: int, acc: u64, d: Seq<char>)
    requires
        0 <= i,
        i + d.len() <= s.len(),
        all_digits(d),
        s.subrange(i, i + d.len() as int) == d,
        seq_val(d, acc as int) <= u64::MAX as int,
        i + d.len() == s.len() || !is_digit(s[i + d.len()]),
    ensures
        sp_u64_loop(s, i, acc) == Some(((seq_val(d, acc as int)) as u64, i + d.len() as int)),
    decreases d.len(),
{
    if d.len() == 0 {
    } else {
        assert(s[i] == d[0]) by {
            assert(s.subrange(i, i + d.len() as int)[0] == s[i]);
        }
        assert(is_digit(s[i]));
        let step = acc as int * 10 + digit_val(s[i]);
        assert(seq_val(d, acc as int) == seq_val(d.drop_first(), step));
        lemma_seq_val_ge(d.drop_first(), step);
        assert(step <= u64::MAX as int);
        assert(s.subrange(i + 1, i + 1 + d.drop_first().len() as int) =~= d.drop_first()) by {
            assert(forall|k: int|
                0 <= k < d.len() - 1 ==> #[trigger] s.subrange(i + 1, i + d.len() as int)[k]
                    == s.subrange(i, i + d.len() as int)[k + 1]);
        }
        lemma_loop_digits(s, i + 1, step as u64, d.drop_first());
    }
}

/// Law: parsing a rendered number, delimited on the right, gives the number
/// back and stops right after it.
pub proof fn lemma_u64_round_trip(s: Seq<char>, i: int, n: u64)
    requires
        0 <= i,
        i + dec_digits(n as nat).len() <= s.len(),
        s.subrange(i, i + dec_digits(n as nat).len() as int) == dec_digits(n as nat),
        i + dec_digits(n as nat).len() == s.len() || !is_digit(s[i + dec_digits(n as nat).len()]),
    ensures
        sp_u64(s, i) == Some((n, i + dec_digits(n as nat).len() as int)),
{
    let d = dec_digits(n as nat);
    lemma_dec_digits_shape(n as nat);
    lemma_dec_digits_val(n as nat);
    assert(s[i] == d[0]) by {
        assert(s.subrange(i, i + d.len() as int)[0] == s[i]);
    }
    assert(is_digit(s[i]));
    lemma_loop_digits(s, i, 0, d);
}

} // verus!
