//! A lexicographic order on character sequences, used to make every ranking
//! and every placeholder argument list deterministic.

use vstd::prelude::*;

verus! {

/// Strict lexicographic order on character sequences, by code point.
pub open spec fn lex_lt(a: Seq<char>, b: Seq<char>) -> bool
    decreases a.len(),
{
    if b.len() == 0 {
        false
    } else if a.len() == 0 {
        true
    } else if a[0] != b[0] {
        a[0] < b[0]
    } else {
        lex_lt(a.subrange(1, a.len() as int), b.subrange(1, b.len() as int))
    }
}

/// Reflexive lexicographic order on character sequences.
pub open spec fn lex_le(a: Seq<char>, b: Seq<char>) -> bool {
    lex_lt(a, b) || a == b
}

/// Any two character sequences are comparable.
pub proof fn lemma_lex_connected(a: Seq<char>, b: Seq<char>)
    ensures
        lex_lt(a, b) || lex_lt(b, a) || a == b,
    decreases a.len(),
{
    if b.len() == 0 && a.len() == 0 {
        assert(a =~= b);
    } else if b.len() == 0 || a.len() == 0 {
    } else if a[0] != b[0] {
    } else {
        let at = a.subrange(1, a.len() as int);
        let bt = b.subrange(1, b.len() as int);
        lemma_lex_connected(at, bt);
        if at == bt {
            assert(a =~= b) by {
                assert(a.len() == at.len() + 1);
                assert(b.len() == bt.len() + 1);
                assert(forall|i: int|
                    1 <= i < a.len() ==> a[i] == at[i - 1] && b[i] == bt[i - 1]);
            }
        }
    }
}

/// The lexicographic order is transitive.
pub proof fn lemma_lex_lt_trans(a: Seq<char>, b: Seq<char>, c: Seq<char>)
    requires
        lex_lt(a, b),
        lex_lt(b, c),
    ensures
        lex_lt(a, c),
    decreases a.len(),
{
    if a.len() == 0 {
    } else {
        if a[0] == b[0] {
            if b[0] == c[0] {
                lemma_lex_lt_trans(
                    a.subrange(1, a.len() as int),
                    b.subrange(1, b.len() as int),
                    c.subrange(1, c.len() as int),
                );
            }
        }
    }
}

/// Transitivity for the reflexive order.
pub proof fn lemma_lex_le_trans(a: Seq<char>, b: Seq<char>, c: Seq<char>)
    requires
        lex_le(a, b),
        lex_le(b, c),
    ensures
        lex_le(a, c),
{
    if lex_lt(a, b) && lex_lt(b, c) {
        lemma_lex_lt_trans(a, b, c);
    }
}

/// Executable comparison realizing `lex_lt` on string slices.
pub fn str_lt(a: &str, b: &str) -> (r: bool)
    ensures
        r == lex_lt(a@, b@),
{
    let a_len = a.unicode_len();
    let b_len = b.unicode_len();
    let mut i: usize = 0;
    proof {
        assert(a@.subrange(0, a_len as int) =~= a@);
        assert(b@.subrange(0, b_len as int) =~= b@);
    }
    loop
        invariant
            i <= a_len,
            i <= b_len,
            a_len == a@.len(),
            b_len == b@.len(),
            forall|j: int| 0 <= j < i ==> a@[j] == b@[j],
            lex_lt(a@, b@) == lex_lt(
                a@.subrange(i as int, a_len as int),
                b@.subrange(i as int, b_len as int),
            ),
        decreases a_len - i,
    {
        if i == a_len || i == b_len {
            proof {
                let at = a@.subrange(i as int, a_len as int);
                let bt = b@.subrange(i as int, b_len as int);
                assert(at.len() == 0 || bt.len() == 0);
            }
            return i == a_len && i < b_len;
        }
        let ca = a.get_char(i);
        let cb = b.get_char(i);
        if ca != cb {
            proof {
                let at = a@.subrange(i as int, a_len as int);
                let bt = b@.subrange(i as int, b_len as int);
                assert(at[0] == a@[i as int]);
                assert(bt[0] == b@[i as int]);
            }
            return ca < cb;
        }
        proof {
            let at = a@.subrange(i as int, a_len as int);
            let bt = b@.subrange(i as int, b_len as int);
            assert(at[0] == a@[i as int]);
            assert(bt[0] == b@[i as int]);
            assert(at.subrange(1, at.len() as int) =~= a@.subrange(i + 1, a_len as int));
            assert(bt.subrange(1, bt.len() as int) =~= b@.subrange(i + 1, b_len as int));
        }
        i = i + 1;
    }
}

/// Executable comparison realizing `lex_le` on string slices.
pub fn str_le(a: &str, b: &str) -> (r: bool)
    ensures
        r == lex_le(a@, b@),
{
    let a_len = a.unicode_len();
    let b_len = b.unicode_len();
    if a_len == b_len {
        let mut i: usize = 0;
        loop
            invariant
                i <= a_len,
                a_len == a@.len(),
                b_len == b@.len(),
                a_len == b_len,
                forall|j: int| 0 <= j < i ==> a@[j] == b@[j],
            decreases a_len - i,
        {
            if i == a_len {
                proof {
                    assert(a@ =~= b@);
                }
                return true;
            }
            let ca = a.get_char(i);
            let cb = b.get_char(i);
            if ca != cb {
                return str_lt(a, b);
            }
            i = i + 1;
        }
    } else {
        str_lt(a, b)
    }
}

} // verus!
