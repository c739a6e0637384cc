//! Numbering the orderings of a sequence of distinct values.
//!
//! An ordering is read off a number as mixed-radix digits: the first digit
//! (base `len`) picks one of the remaining values, which is then replaced by
//! the last remaining value; the rest of the number orders what remains.
use vstd::prelude::*;

verus! {

/// `n!`.
pub open spec fn factorial(n: nat) -> nat
    decreases n,
{
    if n == 0 {
        1
    } else {
        n * factorial((n - 1) as nat)
    }
}

/// Removes the value at `j` by moving the last value into its place.
pub open spec fn swap_remove(e: Seq<usize>, j: int) -> Seq<usize> {
    e.update(j, e.last()).drop_last()
}

/// The ordering of the values `e` that the number `m` stands for.
pub open spec fn spec_decode(e: Seq<usize>, m: nat) -> Seq<usize>
    decreases e.len(),
{
    if e.len() == 0 {
        Seq::empty()
    } else {
        let j = (m % e.len()) as int;
        seq![e[j]] + spec_decode(swap_remove(e, j), m / e.len())
    }
}

/// The number that stands for the ordering `perm` of the values `e`.
pub open spec fn spec_encode(e: Seq<usize>, perm: Seq<usize>) -> nat
    decreases perm.len(),
{
    if perm.len() == 0 || e.len() == 0 {
        0
    } else {
        let j = e.index_of(perm[0]);
        (j + e.len() * spec_encode(swap_remove(e, j), perm.drop_first())) as nat
    }
}

/// `perm` holds the same distinct values as `e`, in some order.
pub open spec fn is_perm_of(perm: Seq<usize>, e: Seq<usize>) -> bool {
    &&& perm.len() == e.len()
    &&& perm.no_duplicates()
    &&& e.no_duplicates()
    &&& forall|x: usize| perm.contains(x) <==> e.contains(x)
}

/// `n!` is at least 1.
pub proof fn lemma_factorial_positive(n: nat)
    ensures
        factorial(n) >= 1,
    decreases n,
{
    if n > 0 {
        lemma_factorial_positive((n - 1) as nat);
        assert(n * factorial((n - 1) as nat) >= 1) by (nonlinear_arith)
            requires
                n >= 1,
                factorial((n - 1) as nat) >= 1,
        ;
    }
}

pub proof fn lemma_swap_remove(e: Seq<usize>, j: int)
    requires
        e.no_duplicates(),
        0 <= j < e.len(),
    ensures
        swap_remove(e, j).len() == e.len() - 1,
        swap_remove(e, j).no_duplicates(),
        forall|y: usize| swap_remove(e, j).contains(y) <==> (e.contains(y) && y != e[j]),
{
    let s = swap_remove(e, j);
    let n = e.len();
    assert forall|a: int, b: int| 0 <= a < s.len() && 0 <= b < s.len() && a != b implies s[a] != s[b] by {
        let ia = if a == j {
            n - 1
        } else {
            a
        };
        let ib = if b == j {
            n - 1
        } else {
            b
        };
        assert(s[a] == e[ia]);
        assert(s[b] == e[ib]);
    }
    assert forall|y: usize| s.contains(y) <==> (e.contains(y) && y != e[j]) by {
        if s.contains(y) {
            let a = choose|a: int| 0 <= a < s.len() && s[a] == y;
            let ia = if a == j {
                n - 1
            } else {
                a
            };
            assert(s[a] == e[ia]);
            assert(ia != j);
        }
        if e.contains(y) && y != e[j] {
            let i = choose|i: int| 0 <= i < n && e[i] == y;
            if i == n - 1 {
                assert(s[j] == y);
            } else {
                assert(s[i] == y);
            }
        }
    }
}

proof fn lemma_div_mod_step(j: int, l: int, x: int)
    requires
        0 <= j < l,
        x >= 0,
    ensures
        (j + l * x) % l == j,
        (j + l * x) / l == x,
{
    assert((j + l * x) % l == j && (j + l * x) / l == x) by (nonlinear_arith)
        requires
            0 <= j < l,
            x >= 0,
    ;
}

/// Decoding the number of an ordering gives back the ordering, and the
/// number is below `len!`.
pub proof fn lemma_decode_encode(e: Seq<usize>, perm: Seq<usize>)
    requires
        is_perm_of(perm, e),
    ensures
        spec_decode(e, spec_encode(e, perm)) == perm,
        spec_encode(e, perm) < factorial(e.len()),
    decreases e.len(),
{
    if e.len() == 0 {
        assert(perm =~= Seq::<usize>::empty());
    } else {
        let l = e.len() as int;
        let x = perm[0];
        assert(perm.contains(x));
        assert(e.contains(x));
        let j = e.index_of(x);
        assert(0 <= j < l && e[j] == x);
        let e2 = swap_remove(e, j);
        let perm2 = perm.drop_first();
        lemma_swap_remove(e, j);
        assert forall|a: int, b: int| 0 <= a < perm2.len() && 0 <= b < perm2.len() && a != b implies perm2[a]
            != perm2[b] by {
            assert(perm2[a] == perm[a + 1]);
            assert(perm2[b] == perm[b + 1]);
        }
        assert forall|y: usize| perm2.contains(y) <==> e2.contains(y) by {
            if perm2.contains(y) {
                let a = choose|a: int| 0 <= a < perm2.len() && perm2[a] == y;
                assert(perm[a + 1] == y);
                assert(perm.contains(y));
                assert(y != x);
            }
            if e2.contains(y) {
                assert(e.contains(y) && y != x);
                assert(perm.contains(y));
                let a = choose|a: int| 0 <= a < perm.len() && perm[a] == y;
                assert(a != 0);
                assert(perm2[a - 1] == y);
            }
        }
        lemma_decode_encode(e2, perm2);
        let inner = spec_encode(e2, perm2);
        let m = spec_encode(e, perm);
        assert(m == j + l * inner);
        lemma_div_mod_step(j, l, inner as int);
        assert(spec_decode(e, m) =~= perm);
        lemma_factorial_positive((l - 1) as nat);
        assert(factorial(e.len()) == l * factorial((l - 1) as nat));
        assert(j + l * inner < l * factorial((l - 1) as nat)) by (nonlinear_arith)
            requires
                0 <= j < l,
                0 <= inner < factorial((l - 1) as nat),
        ;
    }
}

/// Encoding the ordering that a number below `len!` stands for gives back
/// the number.
pub proof fn lemma_encode_decode(e: Seq<usize>, m: nat)
    requires
        e.no_duplicates(),
        m < factorial(e.len()),
    ensures
        spec_encode(e, spec_decode(e, m)) == m,
        is_perm_of(spec_decode(e, m), e),
    decreases e.len(),
{
    let d = spec_decode(e, m);
    if e.len() == 0 {
        assert(d =~= Seq::<usize>::empty());
    } else {
        let l = e.len() as int;
        let j = (m % e.len()) as int;
        let e2 = swap_remove(e, j);
        let q = m / e.len();
        lemma_swap_remove(e, j);
        assert(factorial(e.len()) == l * factorial((l - 1) as nat));
        assert(q < factorial((l - 1) as nat)) by (nonlinear_arith)
            requires
                m < l * factorial((l - 1) as nat),
                q == m / (l as nat),
                l > 0,
        ;
        lemma_encode_decode(e2, q);
        let rest = spec_decode(e2, q);
        assert(d == seq![e[j]] + rest);
        assert(d[0] == e[j]);
        assert(d.drop_first() =~= rest);
        let idx = e.index_of(e[j]);
        assert(e.contains(e[j]));
        assert(e[idx] == e[j]);
        assert(idx == j);
        assert(m == j + l * q) by (nonlinear_arith)
            requires
                l > 0,
                j == m % (l as nat),
                q == m / (l as nat),
        ;
        assert forall|a: int, b: int| 0 <= a < d.len() && 0 <= b < d.len() && a != b implies d[a] != d[b] by {
            if a == 0 && b > 0 {
                assert(d[b] == rest[b - 1]);
                assert(rest.contains(d[b]));
            } else if b == 0 && a > 0 {
                assert(d[a] == rest[a - 1]);
                assert(rest.contains(d[a]));
            } else if a > 0 && b > 0 {
                assert(d[a] == rest[a - 1]);
                assert(d[b] == rest[b - 1]);
            }
        }
        assert forall|y: usize| d.contains(y) <==> e.contains(y) by {
            if d.contains(y) {
                let a = choose|a: int| 0 <= a < d.len() && d[a] == y;
                if a > 0 {
                    assert(d[a] == rest[a - 1]);
                    assert(rest.contains(y));
                }
            }
            if e.contains(y) {
                if y == e[j] {
                    assert(d[0] == y);
                } else {
                    assert(e2.contains(y));
                    assert(rest.contains(y));
                    let a = choose|a: int| 0 <= a < rest.len() && rest[a] == y;
                    assert(d[a + 1] == y);
                }
            }
        }
    }
}

} // verus!
