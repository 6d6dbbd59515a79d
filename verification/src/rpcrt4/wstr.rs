//! NUL-terminated wide strings held in slices.
//!
//! A slice holds the string that runs up to its first NUL unit, or to its
//! end where it has none; past the end of the slice every unit reads as
//! the terminator.

use vstd::prelude::*;

verus! {

/// The unit at `i`, or the terminator outside the slice.
pub open spec fn at(s: Seq<u16>, i: int) -> u16 {
    if 0 <= i < s.len() { s[i] } else { 0u16 }
}

/// `n` is where the string in `s` ends: no NUL before it, and a NUL or
/// the end of `s` at it.
pub open spec fn is_wlen(s: Seq<u16>, n: int) -> bool {
    &&& 0 <= n <= s.len()
    &&& forall|j: int| 0 <= j < n ==> #[trigger] s[j] != 0u16
    &&& (n == s.len() || s[n] == 0u16)
}

/// The length of the string in `s`.
pub open spec fn wlen(s: Seq<u16>) -> int
    decreases s.len(),
{
    if s.len() == 0 || s[0] == 0u16 { 0 } else { 1 + wlen(s.drop_first()) }
}

/// The string in `s`, without its terminator.
pub open spec fn wstr(s: Seq<u16>) -> Seq<u16> {
    s.take(wlen(s))
}

/// `wlen` is where the string ends.
pub proof fn lemma_wlen(s: Seq<u16>)
    ensures
        is_wlen(s, wlen(s)),
    decreases s.len(),
{
    if s.len() > 0 && s[0] != 0u16 {
        lemma_wlen(s.drop_first());
        assert forall|j: int| 0 <= j < wlen(s) implies #[trigger] s[j] != 0u16 by {
            if j > 0 {
                assert(s[j] == s.drop_first()[j - 1]);
            }
        }
        if wlen(s) < s.len() {
            assert(s[wlen(s)] == s.drop_first()[wlen(s) - 1]);
        }
    }
}

/// A string ends at one place only.
pub proof fn lemma_wlen_unique(s: Seq<u16>, n: int)
    requires
        is_wlen(s, n),
    ensures
        wlen(s) == n,
{
    lemma_wlen(s);
    let m = wlen(s);
    if m < n {
        assert(s[m] != 0u16);
    } else if n < m {
        assert(s[n] != 0u16);
    }
}

/// The length of the string in `s`.
pub fn wstrlen(s: &[u16]) -> (r: usize)
    ensures
        r == wlen(s@),
{
    let mut len: usize = 0;
    while len < s.len() && s[len] != 0
        invariant
            len <= s@.len(),
            forall|j: int| 0 <= j < len ==> #[trigger] s@[j] != 0u16,
        decreases s@.len() - len,
    {
        len = len + 1;
    }
    proof {
        lemma_wlen_unique(s@, len as int);
    }
    len
}

/// A position as an integer.
pub open spec fn idx(i: usize) -> int {
    i as int
}

/// Whether the strings in `s1` and `s2` are equal.
pub fn wstrcmp(s1: &[u16], s2: &[u16]) -> (r: bool)
    ensures
        r == (wstr(s1@) == wstr(s2@)),
{
    proof {
        lemma_wlen(s1@);
        lemma_wlen(s2@);
    }
    let mut i: usize = 0;
    loop
        invariant
            i <= s1@.len() || i <= s2@.len(),
            is_wlen(s1@, wlen(s1@)),
            is_wlen(s2@, wlen(s2@)),
            forall|j: int| 0 <= j < i ==> #[trigger] at(s1@, j) == at(s2@, j) && at(s1@, j) != 0u16,
        decreases s1@.len() + s2@.len() - i,
    {
        let c1: u16 = if i < s1.len() { s1[i] } else { 0 };
        let c2: u16 = if i < s2.len() { s2[i] } else { 0 };
        proof {
            assert(wlen(s1@) >= i) by {
                if wlen(s1@) < i {
                    assert(at(s1@, wlen(s1@)) != 0u16);
                }
            }
            assert(wlen(s2@) >= i) by {
                if wlen(s2@) < i {
                    assert(at(s1@, wlen(s2@)) == at(s2@, wlen(s2@)));
                }
            }
            if wlen(s1@) > i {
                assert(s1@[idx(i)] != 0u16);
            }
            if wlen(s2@) > i {
                assert(s2@[idx(i)] != 0u16);
            }
        }
        if c1 != c2 {
            proof {
                if wstr(s1@) == wstr(s2@) {
                    if c1 == 0u16 {
                        assert(wlen(s1@) == i);
                        assert(wlen(s2@) > i);
                        assert(wstr(s2@).len() > wstr(s1@).len());
                    } else if c2 == 0u16 {
                        assert(wlen(s2@) == i);
                        assert(wlen(s1@) > i);
                        assert(wstr(s1@).len() > wstr(s2@).len());
                    } else {
                        assert(wlen(s1@) > i && wlen(s2@) > i);
                        assert(wstr(s1@)[idx(i)] == c1);
                        assert(wstr(s2@)[idx(i)] == c2);
                    }
                }
            }
            return false;
        }
        if c1 == 0 {
            proof {
                assert(wlen(s1@) == i);
                assert(wlen(s2@) == i);
                assert forall|j: int| 0 <= j < i implies wstr(s1@)[j] == wstr(s2@)[j] by {
                    assert(at(s1@, j) == at(s2@, j));
                }
                assert(wstr(s1@) =~= wstr(s2@));
            }
            return true;
        }
        i = i + 1;
    }
}

/// `dst` after the first `n` units of `src` and a terminator are written
/// to it.
pub open spec fn copied(dst: Seq<u16>, src: Seq<u16>, n: int) -> Seq<u16> {
    Seq::new(dst.len(), |j: int| if j < n { src[j] } else if j == n { 0u16 } else { dst[j] })
}

/// Copy the string in `src` to `dst`, at most `max_len - 1` units of it,
/// and terminate it; the number of units copied.
pub fn wstrcpy(dst: &mut [u16], src: &[u16], max_len: usize) -> (r: usize)
    requires
        1 <= max_len <= old(dst)@.len(),
    ensures
        r == (if wlen(src@) < max_len - 1 { wlen(src@) } else { max_len - 1 }),
        final(dst)@ == copied(old(dst)@, src@, r as int),
{
    proof {
        lemma_wlen(src@);
    }
    let mut len: usize = 0;
    while len < max_len - 1
        invariant_except_break
            1 <= max_len <= dst@.len(),
            len <= max_len - 1,
            len <= src@.len(),
            is_wlen(src@, wlen(src@)),
            wlen(src@) >= len,
            forall|j: int| 0 <= j < len ==> #[trigger] src@[j] != 0u16,
            dst@.len() == old(dst)@.len(),
            forall|j: int| 0 <= j < dst@.len() ==> #[trigger] dst@[j] == if j < len { src@[j] } else { old(dst)@[j] },
        ensures
            1 <= max_len <= dst@.len(),
            len <= max_len - 1,
            len == (if wlen(src@) < max_len - 1 { wlen(src@) } else { max_len - 1 }),
            dst@.len() == old(dst)@.len(),
            forall|j: int| 0 <= j < dst@.len() && j != len ==> #[trigger] dst@[j] == if j < len { src@[j] } else { old(dst)@[j] },
        decreases max_len - 1 - len,
    {
        let c: u16 = if len < src.len() { src[len] } else { 0 };
        dst[len] = c;
        if c == 0 {
            proof {
                lemma_wlen_unique(src@, len as int);
            }
            break;
        }
        len = len + 1;
        proof {
            assert(wlen(src@) >= len) by {
                if wlen(src@) < len {
                    assert(src@[wlen(src@)] != 0u16);
                }
            }
        }
    }
    dst[len] = 0;
    proof {
        assert(dst@ =~= copied(old(dst)@, src@, len as int));
    }
    len
}

/// Copy the string in `src` into `dst`, as much of it as fits before a
/// terminator; the number of units copied.
pub fn copy_wstr(dst: &mut [u16], src: &[u16]) -> (r: usize)
    requires
        old(dst)@.len() >= 1,
    ensures
        r == (if wlen(src@) < old(dst)@.len() - 1 { wlen(src@) } else { old(dst)@.len() - 1 }),
        final(dst)@ == copied(old(dst)@, src@, r as int),
{
    let n = dst.len();
    wstrcpy(dst, src, n)
}

/// Whether `s1` holds a terminated string equal to the string in `s2`.
pub fn compare_wstr(s1: &[u16], s2: &[u16]) -> (r: bool)
    ensures
        r == (wlen(s1@) < s1@.len() && wstr(s1@) == wstr(s2@)),
{
    proof {
        lemma_wlen(s1@);
        lemma_wlen(s2@);
    }
    let mut i: usize = 0;
    while i < s1.len()
        invariant
            i <= s1@.len(),
            is_wlen(s1@, wlen(s1@)),
            is_wlen(s2@, wlen(s2@)),
            forall|j: int| 0 <= j < i ==> #[trigger] s1@[j] == at(s2@, j) && s1@[j] != 0u16,
        decreases s1@.len() - i,
    {
        let c2: u16 = if i < s2.len() { s2[i] } else { 0 };
        proof {
            assert(wlen(s1@) >= i) by {
                if wlen(s1@) < i {
                    assert(s1@[wlen(s1@)] != 0u16);
                }
            }
            assert(wlen(s2@) >= i) by {
                if wlen(s2@) < i {
                    assert(s1@[wlen(s2@)] == at(s2@, wlen(s2@)));
                }
            }
            if wlen(s2@) > i {
                assert(s2@[idx(i)] != 0u16);
            }
        }
        if s1[i] != c2 {
            proof {
                if wlen(s1@) < s1@.len() && wstr(s1@) == wstr(s2@) {
                    if s1@[idx(i)] == 0u16 {
                        assert(wlen(s1@) == i);
                        assert(wlen(s2@) > i) by {
                            if wlen(s2@) == i {
                                assert(at(s2@, idx(i)) == 0u16);
                            }
                        }
                        assert(wstr(s1@).len() == i);
                        assert(wstr(s2@).len() > i);
                    } else {
                        assert(wlen(s1@) > i);
                        assert(wstr(s1@)[idx(i)] == s1@[idx(i)]);
                        assert(wstr(s1@).len() > i);
                        if wlen(s2@) > i {
                            assert(wstr(s2@)[idx(i)] == c2);
                        } else {
                            assert(wstr(s2@).len() == i);
                        }
                    }
                }
            }
            return false;
        }
        if s1[i] == 0 {
            proof {
                assert(wlen(s1@) == i);
                assert(wlen(s2@) == i) by {
                    assert(at(s2@, idx(i)) == 0u16);
                }
                assert forall|j: int| 0 <= j < i implies wstr(s1@)[j] == wstr(s2@)[j] by {
                    assert(s1@[j] == at(s2@, j));
                }
                assert(wstr(s1@) =~= wstr(s2@));
            }
            return true;
        }
        i = i + 1;
    }
    proof {
        assert(wlen(s1@) == s1@.len()) by {
            if wlen(s1@) < s1@.len() {
                assert(s1@[wlen(s1@)] != 0u16);
            }
        }
    }
    false
}

} // verus!
