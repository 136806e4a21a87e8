//! Byte-string algebra used throughout the planners: equality, substring
//! search, and marker replacement. File names are handled as byte strings so
//! that every rule about them is a statement over `Seq<u8>`.

use vstd::prelude::*;

verus! {

/// `pat` occurs in `s` starting at position `i`.
pub open spec fn is_match_at(s: Seq<u8>, pat: Seq<u8>, i: int) -> bool {
    0 <= i && i + pat.len() <= s.len() && s.subrange(i, i + pat.len()) == pat
}

/// `pat` occurs somewhere in `s`.
pub open spec fn contains_pat(s: Seq<u8>, pat: Seq<u8>) -> bool {
    exists|i: int| is_match_at(s, pat, i)
}

/// Byte-string equality.
pub fn bytes_eq(a: &Vec<u8>, b: &Vec<u8>) -> (r: bool)
    ensures
        r == (a@ == b@),
{
    if a.len() != b.len() {
        return false;
    }
    let mut i: usize = 0;
    while i < a.len()
        invariant
            i <= a.len(),
            a.len() == b.len(),
            forall|j: int| 0 <= j < i ==> a@[j] == b@[j],
        decreases a.len() - i,
    {
        if a[i] != b[i] {
            return false;
        }
        i += 1;
    }
    proof {
        assert(a@ =~= b@);
    }
    true
}

/// Whether `pat` occurs in `s` at position `i`.
pub fn match_at(s: &Vec<u8>, pat: &Vec<u8>, i: usize) -> (r: bool)
    requires
        i + pat@.len() <= s@.len(),
    ensures
        r == is_match_at(s@, pat@, i as int),
{
    let n = s.len();
    let mut j: usize = 0;
    while j < pat.len()
        invariant
            j <= pat.len(),
            n == s@.len(),
            i + pat@.len() <= n,
            forall|k: int| 0 <= k < j ==> s@[i + k] == pat@[k],
        decreases pat.len() - j,
    {
        if s[i + j] != pat[j] {
            proof {
                assert(s@.subrange(i as int, i + pat@.len())[j as int] == s@[i + j]);
            }
            return false;
        }
        j += 1;
    }
    proof {
        assert(s@.subrange(i as int, i + pat@.len()) =~= pat@);
    }
    true
}

/// Substring search: whether `pat` occurs anywhere in `s`.
pub fn contains_bytes(s: &Vec<u8>, pat: &Vec<u8>) -> (r: bool)
    ensures
        r == contains_pat(s@, pat@),
{
    if pat.len() > s.len() {
        return false;
    }
    if pat.len() == 0 {
        proof {
            assert(s@.subrange(0, 0) =~= pat@);
            assert(is_match_at(s@, pat@, 0));
        }
        return true;
    }
    let mut i: usize = 0;
    while i <= s.len() - pat.len()
        invariant
            1 <= pat@.len() <= s@.len(),
            i <= s@.len() - pat@.len() + 1,
            forall|j: int| 0 <= j < i ==> !is_match_at(s@, pat@, j),
        decreases s@.len() - pat@.len() + 1 - i,
    {
        if match_at(s, pat, i) {
            return true;
        }
        i += 1;
    }
    false
}

/// Appends all of `add` to `out`.
pub fn push_all(out: &mut Vec<u8>, add: &Vec<u8>)
    ensures
        final(out)@ == old(out)@ + add@,
{
    let mut k: usize = 0;
    while k < add.len()
        invariant
            k <= add@.len(),
            out@ == old(out)@ + add@.take(k as int),
        decreases add@.len() - k,
    {
        out.push(add[k]);
        proof {
            assert(old(out)@ + add@.take(k as int) + seq![add@[k as int]] =~= old(out)@
                + add@.take(k + 1));
        }
        k += 1;
    }
    proof {
        assert(add@.take(add@.len() as int) =~= add@);
    }
}

/// A fresh copy of a byte string.
pub fn clone_bytes(v: &Vec<u8>) -> (r: Vec<u8>)
    ensures
        r@ == v@,
{
    let mut r: Vec<u8> = Vec::new();
    push_all(&mut r, v);
    proof {
        assert(r@ =~= v@);
    }
    r
}

/// Every occurrence of `pat` in `s`, scanning from the left, replaced by
/// `rep`. An empty pattern replaces nothing. Replaced stretches are not
/// rescanned, as with the usual string replacement.
pub open spec fn replace_all(s: Seq<u8>, pat: Seq<u8>, rep: Seq<u8>) -> Seq<u8>
    decreases s.len(),
{
    if pat.len() == 0 || s.len() < pat.len() {
        s
    } else if s.subrange(0, pat.len() as int) == pat {
        rep + replace_all(s.skip(pat.len() as int), pat, rep)
    } else {
        seq![s[0]] + replace_all(s.skip(1), pat, rep)
    }
}

/// An occurrence in a suffix is an occurrence in the whole, shifted.
pub proof fn lemma_match_skip(s: Seq<u8>, pat: Seq<u8>, c: int, j: int)
    requires
        0 <= c <= s.len(),
        0 <= j,
    ensures
        is_match_at(s.skip(c), pat, j) == is_match_at(s, pat, j + c),
{
    if 0 <= j && j + pat.len() <= s.skip(c).len() {
        assert(s.skip(c).subrange(j, j + pat.len()) =~= s.subrange(j + c, j + c + pat.len()));
    }
}

/// An occurrence of a concatenated pattern begins with an occurrence of its
/// first part.
pub proof fn lemma_match_prefix(s: Seq<u8>, p1: Seq<u8>, p2: Seq<u8>, j: int)
    requires
        is_match_at(s, p1 + p2, j),
    ensures
        is_match_at(s, p1, j),
{
    assert(s.subrange(j, j + p1.len()) =~= (p1 + p2).subrange(0, p1.len() as int));
    assert((p1 + p2).subrange(0, p1.len() as int) =~= p1);
}

/// Replacement in a string without any occurrence of the pattern is the
/// identity.
pub proof fn lemma_replace_all_no_match(s: Seq<u8>, pat: Seq<u8>, rep: Seq<u8>)
    requires
        forall|j: int| !is_match_at(s, pat, j),
    ensures
        replace_all(s, pat, rep) == s,
    decreases s.len(),
{
    if pat.len() == 0 || s.len() < pat.len() {
    } else if s.subrange(0, pat.len() as int) == pat {
        assert(is_match_at(s, pat, 0));
    } else {
        assert forall|j: int| !is_match_at(s.skip(1), pat, j) by {
            if 0 <= j {
                lemma_match_skip(s, pat, 1, j);
            }
        }
        lemma_replace_all_no_match(s.skip(1), pat, rep);
        assert(seq![s[0]] + s.skip(1) =~= s);
    }
}

/// Replacement leaves untouched a prefix in which the pattern does not
/// occur, and goes on from its end.
pub proof fn lemma_replace_all_clean_prefix(s: Seq<u8>, pat: Seq<u8>, rep: Seq<u8>, k: int)
    requires
        0 <= k <= s.len(),
        forall|j: int| j < k ==> !is_match_at(s, pat, j),
    ensures
        replace_all(s, pat, rep) == s.take(k) + replace_all(s.skip(k), pat, rep),
    decreases k,
{
    if k == 0 {
        assert(s.skip(0) =~= s);
        assert(s.take(0) + replace_all(s, pat, rep) =~= replace_all(s, pat, rep));
    } else {
        if pat.len() == 0 || s.len() < pat.len() {
            if pat.len() == 0 {
                assert(replace_all(s.skip(k), pat, rep) == s.skip(k));
            } else {
                assert(s.skip(k).len() < pat.len());
                assert(replace_all(s.skip(k), pat, rep) == s.skip(k));
            }
            assert(s.take(k) + s.skip(k) =~= s);
        } else if s.subrange(0, pat.len() as int) == pat {
            assert(is_match_at(s, pat, 0));
            assert(false);
        } else {
            assert forall|j: int| j < k - 1 implies !is_match_at(s.skip(1), pat, j) by {
                if 0 <= j {
                    lemma_match_skip(s, pat, 1, j);
                }
            }
            lemma_replace_all_clean_prefix(s.skip(1), pat, rep, k - 1);
            assert(s.skip(1).take(k - 1) =~= s.subrange(1, k));
            assert(s.skip(1).skip(k - 1) =~= s.skip(k));
            assert(seq![s[0]] + (s.subrange(1, k) + replace_all(s.skip(k), pat, rep)) =~= s.take(
                k,
            ) + replace_all(s.skip(k), pat, rep));
        }
    }
}

/// Every occurrence of `pat` in `s` replaced by `rep`, executably.
pub fn replace_all_bytes(s: &Vec<u8>, pat: &Vec<u8>, rep: &Vec<u8>) -> (r: Vec<u8>)
    ensures
        r@ == replace_all(s@, pat@, rep@),
{
    if pat.len() == 0 {
        let mut r: Vec<u8> = Vec::new();
        push_all(&mut r, s);
        proof {
            assert(r@ =~= s@);
        }
        return r;
    }
    let mut out: Vec<u8> = Vec::new();
    let mut i: usize = 0;
    let n = s.len();
    proof {
        assert(s@.skip(0) =~= s@);
        assert(Seq::<u8>::empty() + replace_all(s@, pat@, rep@) =~= replace_all(s@, pat@, rep@));
    }
    while i < n
        invariant
            i <= n,
            n == s@.len(),
            pat@.len() >= 1,
            replace_all(s@, pat@, rep@) == out@ + replace_all(s@.skip(i as int), pat@, rep@),
        decreases n - i,
    {
        let ghost prev_out = out@;
        let ghost rest = s@.skip(i as int);
        if pat.len() <= n - i && match_at(s, pat, i) {
            proof {
                assert(rest.subrange(0, pat@.len() as int) =~= s@.subrange(
                    i as int,
                    i + pat@.len(),
                ));
                assert(replace_all(rest, pat@, rep@) == rep@ + replace_all(
                    rest.skip(pat@.len() as int),
                    pat@,
                    rep@,
                ));
                assert(rest.skip(pat@.len() as int) =~= s@.skip(i + pat@.len()));
            }
            push_all(&mut out, rep);
            i += pat.len();
            proof {
                assert(prev_out + (rep@ + replace_all(s@.skip(i as int), pat@, rep@)) =~= out@
                    + replace_all(s@.skip(i as int), pat@, rep@));
            }
        } else {
            proof {
                if rest.len() < pat@.len() {
                    assert(replace_all(rest, pat@, rep@) == rest);
                    assert(replace_all(s@.skip(i + 1), pat@, rep@) == s@.skip(i + 1));
                    assert(prev_out + rest =~= (prev_out + seq![s@[i as int]]) + s@.skip(i + 1));
                } else {
                    assert(rest.subrange(0, pat@.len() as int) =~= s@.subrange(
                        i as int,
                        i + pat@.len(),
                    ));
                    assert(rest.subrange(0, pat@.len() as int) != pat@);
                    assert(replace_all(rest, pat@, rep@) == seq![rest[0]] + replace_all(
                        rest.skip(1),
                        pat@,
                        rep@,
                    ));
                    assert(rest.skip(1) =~= s@.skip(i + 1));
                    assert(prev_out + (seq![s@[i as int]] + replace_all(
                        s@.skip(i + 1),
                        pat@,
                        rep@,
                    )) =~= (prev_out + seq![s@[i as int]]) + replace_all(
                        s@.skip(i + 1),
                        pat@,
                        rep@,
                    ));
                }
            }
            out.push(s[i]);
            i += 1;
        }
    }
    proof {
        assert(s@.skip(n as int) =~= Seq::<u8>::empty());
        assert(replace_all(Seq::<u8>::empty(), pat@, rep@) == Seq::<u8>::empty());
        assert(out@ + Seq::<u8>::empty() =~= out@);
    }
    out
}

} // verus!
