//! Plain text operations on character sequences.
use vstd::prelude::*;

verus! {

/// `s` with every occurrence of `p` replaced by `w`, matching from the left
/// without overlap. An empty `p` matches before every character and at the end.
pub open spec fn replaced(s: Seq<char>, p: Seq<char>, w: Seq<char>) -> Seq<char>
    decreases s.len(),
{
    if p.len() == 0 {
        if s.len() == 0 {
            w
        } else {
            w + seq![s[0]] + replaced(s.subrange(1, s.len() as int), p, w)
        }
    } else if s.len() == 0 {
        s
    } else if p.len() <= s.len() && s.subrange(0, p.len() as int) == p {
        w + replaced(s.subrange(p.len() as int, s.len() as int), p, w)
    } else {
        seq![s[0]] + replaced(s.subrange(1, s.len() as int), p, w)
    }
}

/// Whether `p` occurs in `s` at position `i`.
pub(crate) fn matches_at(s: &str, n: usize, p: &str, plen: usize, i: usize) -> (r: bool)
    requires
        n == s@.len(),
        plen == p@.len(),
        i <= n,
    ensures
        r == (i + plen <= n && s@.subrange(i as int, i + plen) == p@),
{
    if plen > n - i {
        return false;
    }
    let mut k: usize = 0;
    while k < plen
        invariant
            k <= plen,
            i + plen <= n,
            n == s@.len(),
            plen == p@.len(),
            forall|j: int| 0 <= j < k ==> s@[i + j] == p@[j],
        decreases plen - k,
    {
        if s.get_char(i + k) != p.get_char(k) {
            proof {
                assert(s@.subrange(i as int, i + plen)[k as int] != p@[k as int]);
            }
            return false;
        }
        k += 1;
    }
    proof {
        assert(s@.subrange(i as int, i + plen) =~= p@);
    }
    true
}

/// `s` with every occurrence of `p` replaced by `w`.
pub fn replace_all(s: &str, p: &str, w: &str) -> (r: String)
    ensures
        r@ == replaced(s@, p@, w@),
{
    let n = s.unicode_len();
    let plen = p.unicode_len();
    let mut out = String::new();
    let mut i: usize = 0;
    proof {
        assert(s@.subrange(0, n as int) =~= s@);
        assert(out@ + replaced(s@, p@, w@) =~= replaced(s@, p@, w@));
    }
    if plen == 0 {
        while i < n
            invariant
                i <= n,
                n == s@.len(),
                p@.len() == 0,
                out@ + replaced(s@.subrange(i as int, n as int), p@, w@) == replaced(s@, p@, w@),
            decreases n - i,
        {
            let ghost rest = s@.subrange(i as int, n as int);
            proof {
                assert(rest.subrange(1, rest.len() as int) =~= s@.subrange(i + 1, n as int));
                assert(rest[0] == s@[i as int]);
            }
            out.append(w);
            out.append(s.substring_char(i, i + 1));
            proof {
                assert(s@.subrange(i as int, i + 1) =~= seq![rest[0]]);
                assert(out@ + replaced(s@.subrange(i + 1, n as int), p@, w@) =~= replaced(s@, p@, w@));
            }
            i += 1;
        }
        out.append(w);
        proof {
            assert(s@.subrange(n as int, n as int) =~= Seq::<char>::empty());
        }
        return out;
    }
    while i < n
        invariant
            i <= n,
            n == s@.len(),
            plen == p@.len(),
            plen > 0,
            out@ + replaced(s@.subrange(i as int, n as int), p@, w@) == replaced(s@, p@, w@),
        decreases n - i,
    {
        let ghost rest = s@.subrange(i as int, n as int);
        if matches_at(s, n, p, plen, i) {
            proof {
                assert(rest.subrange(0, plen as int) =~= s@.subrange(i as int, i + plen));
                assert(rest.subrange(plen as int, rest.len() as int) =~= s@.subrange(i + plen, n as int));
            }
            out.append(w);
            proof {
                assert(out@ + replaced(s@.subrange(i + plen, n as int), p@, w@) =~= replaced(s@, p@, w@));
            }
            i += plen;
        } else {
            proof {
                if plen <= rest.len() {
                    assert(rest.subrange(0, plen as int) =~= s@.subrange(i as int, i + plen));
                }
                assert(rest.subrange(1, rest.len() as int) =~= s@.subrange(i + 1, n as int));
                assert(rest[0] == s@[i as int]);
            }
            out.append(s.substring_char(i, i + 1));
            proof {
                assert(s@.subrange(i as int, i + 1) =~= seq![rest[0]]);
                assert(out@ + replaced(s@.subrange(i + 1, n as int), p@, w@) =~= replaced(s@, p@, w@));
            }
            i += 1;
        }
    }
    proof {
        assert(s@.subrange(n as int, n as int) =~= Seq::<char>::empty());
        assert(out@ + Seq::<char>::empty() =~= out@);
    }
    out
}


/// Whether `p` occurs somewhere in `s` (an empty `p` always does).
pub open spec fn occurs(p: Seq<char>, s: Seq<char>) -> bool {
    exists|i: int| 0 <= i && i + p.len() <= s.len() && #[trigger] s.subrange(i, i + p.len()) == p
}

/// Whether `p` occurs somewhere in `s`.
pub fn contains_str(s: &str, p: &str) -> (r: bool)
    ensures
        r == occurs(p@, s@),
{
    let n = s.unicode_len();
    let plen = p.unicode_len();
    if plen > n {
        return false;
    }
    if plen == 0 {
        proof {
            assert(s@.subrange(0, 0 + p@.len() as int) =~= p@);
        }
        return true;
    }
    let mut i: usize = 0;
    while i <= n - plen
        invariant
            1 <= plen <= n,
            n == s@.len(),
            plen == p@.len(),
            forall|k: int| 0 <= k < i ==> #[trigger] s@.subrange(k, k + plen) != p@,
        decreases n - plen + 1 - i,
    {
        if matches_at(s, n, p, plen, i) {
            return true;
        }
        i += 1;
    }
    false
}

} // verus!
