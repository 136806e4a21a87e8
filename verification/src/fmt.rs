//! Decimal text: rendering counters, dates and elapsed times, and reading
//! the poll-interval argument.

use vstd::prelude::*;

verus! {

/// The decimal digits of `n`, most significant first, without leading
/// zeros (`0` itself is the single digit `0`).
pub open spec fn dec_rep(n: nat) -> Seq<u8>
    decreases n,
{
    if n < 10 {
        seq![(48 + n) as u8]
    } else {
        dec_rep(n / 10) + seq![(48 + n % 10) as u8]
    }
}

/// Appends the decimal digits of `n` to `out`.
pub fn push_dec(n: u64, out: &mut Vec<u8>)
    ensures
        final(out)@ == old(out)@ + dec_rep(n as nat),
    decreases n,
{
    if n < 10 {
        out.push(48 + n as u8);
        proof {
            assert(out@ =~= old(out)@ + dec_rep(n as nat));
        }
    } else {
        push_dec(n / 10, out);
        out.push(48 + (n % 10) as u8);
        proof {
            assert(out@ =~= old(out)@ + dec_rep(n as nat));
        }
    }
}

/// The decimal digits of `n` as a byte vector.
pub fn u64_dec(n: u64) -> (r: Vec<u8>)
    ensures
        r@ == dec_rep(n as nat),
{
    let mut r: Vec<u8> = Vec::new();
    push_dec(n, &mut r);
    proof {
        assert(Seq::<u8>::empty() + dec_rep(n as nat) =~= dec_rep(n as nat));
    }
    r
}

/// An elapsed time of `cs` centiseconds rendered as seconds with exactly two
/// decimal places and a trailing `s`, such as `12.07s`.
pub open spec fn elapsed_text(cs: nat) -> Seq<u8> {
    dec_rep(cs / 100) + seq![46u8, (48 + (cs / 10) % 10) as u8, (48 + cs % 10) as u8, 115u8]
}

/// Renders an elapsed time in centiseconds, two decimal places.
pub fn format_elapsed_cs(cs: u64) -> (r: Vec<u8>)
    ensures
        r@ == elapsed_text(cs as nat),
{
    let mut r = u64_dec(cs / 100);
    r.push(46u8);
    r.push(48 + ((cs / 10) % 10) as u8);
    r.push(48 + (cs % 10) as u8);
    r.push(115u8);
    proof {
        assert(r@ =~= elapsed_text(cs as nat));
    }
    r
}

/// Whether the bytes are one or more decimal digits.
pub open spec fn is_digits(s: Seq<u8>) -> bool {
    s.len() > 0 && forall|i: int| 0 <= i < s.len() ==> 48 <= #[trigger] s[i] <= 57
}

/// The numeric value of a digit string, read most significant first.
pub open spec fn dec_value(s: Seq<u8>) -> int
    decreases s.len(),
{
    if s.len() == 0 {
        0
    } else {
        dec_value(s.drop_last()) * 10 + (s.last() - 48)
    }
}

/// A digit string's value is never negative.
pub proof fn lemma_dec_value_nonneg(s: Seq<u8>)
    requires
        forall|i: int| 0 <= i < s.len() ==> 48 <= #[trigger] s[i] <= 57,
    ensures
        dec_value(s) >= 0,
    decreases s.len(),
{
    if s.len() > 0 {
        assert(forall|i: int| 0 <= i < s.drop_last().len() ==> 48 <= #[trigger] s.drop_last()[i]
            <= 57);
        lemma_dec_value_nonneg(s.drop_last());
        assert(dec_value(s.drop_last()) * 10 >= 0) by (nonlinear_arith)
            requires
                dec_value(s.drop_last()) >= 0,
        ;
    }
}

/// A digit string is worth at least any of its prefixes.
pub proof fn lemma_dec_value_prefix(s: Seq<u8>, k: int)
    requires
        forall|i: int| 0 <= i < s.len() ==> 48 <= #[trigger] s[i] <= 57,
        0 <= k <= s.len(),
    ensures
        dec_value(s.take(k)) <= dec_value(s),
    decreases s.len() - k,
{
    if k == s.len() {
        assert(s.take(k) =~= s);
    } else {
        assert(s.take(k + 1).drop_last() =~= s.take(k));
        assert(s.take(k + 1).last() == s[k]);
        assert(forall|i: int| 0 <= i < s.take(k).len() ==> 48 <= #[trigger] s.take(k)[i] <= 57);
        lemma_dec_value_nonneg(s.take(k));
        assert(dec_value(s.take(k)) * 10 >= dec_value(s.take(k))) by (nonlinear_arith)
            requires
                dec_value(s.take(k)) >= 0,
        ;
        lemma_dec_value_prefix(s, k + 1);
    }
}

/// The value a digit argument denotes, or `default` where the bytes are not
/// a plain decimal number that fits a `u64`.
pub open spec fn parse_u64_spec(s: Seq<u8>, default: u64) -> u64 {
    if is_digits(s) && dec_value(s) <= u64::MAX {
        dec_value(s) as u64
    } else {
        default
    }
}

/// Reads a decimal `u64`, falling back to `default` on any malformed or
/// oversized input.
pub fn parse_u64_or(s: &Vec<u8>, default: u64) -> (r: u64)
    ensures
        r == parse_u64_spec(s@, default),
{
    let n = s.len();
    if n == 0 {
        return default;
    }
    let mut acc: u128 = 0;
    let mut i: usize = 0;
    while i < n
        invariant
            i <= n,
            n == s@.len(),
            forall|j: int| 0 <= j < i ==> 48 <= #[trigger] s@[j] <= 57,
            acc == dec_value(s@.take(i as int)),
            acc <= u64::MAX,
        decreases n - i,
    {
        let b = s[i];
        if b < 48 || b > 57 {
            return default;
        }
        acc = acc * 10 + (b - 48) as u128;
        proof {
            assert(s@.take(i + 1).drop_last() =~= s@.take(i as int));
            assert(s@.take(i + 1).last() == s@[i as int]);
        }
        if acc > u64::MAX as u128 {
            proof {
                if is_digits(s@) {
                    lemma_dec_value_prefix(s@, i + 1);
                }
            }
            return default;
        }
        i += 1;
    }
    proof {
        assert(s@.take(n as int) =~= s@);
    }
    acc as u64
}

/// Position of the first line feed in `s`, or its length when none occurs.
pub open spec fn first_nl(s: Seq<u8>) -> int
    decreases s.len(),
{
    if s.len() == 0 {
        0
    } else if s[0] == 10 {
        0
    } else {
        1 + first_nl(s.skip(1))
    }
}

/// `first_nl` is exactly the first position holding a line feed.
pub proof fn lemma_first_nl_at(s: Seq<u8>, e: int)
    requires
        0 <= e <= s.len(),
        forall|j: int| 0 <= j < e ==> s[j] != 10,
        e < s.len() ==> s[e] == 10,
    ensures
        first_nl(s) == e,
    decreases s.len(),
{
    if s.len() > 0 && s[0] != 10 {
        assert forall|j: int| 0 <= j < e - 1 implies s.skip(1)[j] != 10 by {
            assert(s.skip(1)[j] == s[j + 1]);
        }
        if e - 1 < s.skip(1).len() {
            assert(s.skip(1)[e - 1] == s[e]);
        }
        lemma_first_nl_at(s.skip(1), e - 1);
    }
}

/// The first line of a text: everything before the first line feed, with a
/// carriage return immediately preceding that line feed stripped. An empty
/// text has an empty first line.
pub open spec fn first_line_spec(s: Seq<u8>) -> Seq<u8> {
    let line = s.take(first_nl(s));
    if line.len() > 0 && line.last() == 13 {
        line.drop_last()
    } else {
        line
    }
}

/// Extracts the first line of a tool's reported output.
pub fn first_line(s: &Vec<u8>) -> (r: Vec<u8>)
    ensures
        r@ == first_line_spec(s@),
{
    let n = s.len();
    let mut e: usize = 0;
    while e < n && s[e] != 10
        invariant
            e <= n,
            n == s@.len(),
            forall|j: int| 0 <= j < e ==> s@[j] != 10,
        decreases n - e,
    {
        e += 1;
    }
    proof {
        lemma_first_nl_at(s@, e as int);
    }
    let mut line = crate::names::take_bytes(s, e);
    if line.len() > 0 && line[line.len() - 1] == 13 {
        line.pop();
        proof {
            assert(line@ =~= first_line_spec(s@));
        }
    }
    line
}

} // verus!
