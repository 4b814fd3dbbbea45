//! The order in which names are listed: lexicographic by code point.

use vstd::prelude::*;

verus! {

/// Whether `a` and `b` agree on their first `k` characters and `a` comes
/// first at position `k`: either `a` ends there and `b` goes on, or both go
/// on and `a` has the smaller code point.
pub open spec fn precedes_at(a: Seq<char>, b: Seq<char>, k: int) -> bool {
    &&& 0 <= k <= a.len()
    &&& k <= b.len()
    &&& forall|i: int| 0 <= i < k ==> a[i] == b[i]
    &&& if k == a.len() {
        k < b.len()
    } else {
        k < b.len() && a[k] < b[k]
    }
}

/// Whether `a` comes strictly before `b` in lexicographic order by code
/// point. This is the order of `str` and `String`. It is a strict total
/// order: see the lemmas below.
pub open spec fn lex_lt(a: Seq<char>, b: Seq<char>) -> bool {
    exists|k: int| precedes_at(a, b, k)
}

/// No string comes before itself.
pub proof fn lemma_lex_lt_irreflexive(a: Seq<char>)
    ensures
        !lex_lt(a, a),
{
}

/// If `a` comes before `b` and `b` before `c`, then `a` comes before `c`.
pub proof fn lemma_lex_lt_transitive(a: Seq<char>, b: Seq<char>, c: Seq<char>)
    requires
        lex_lt(a, b),
        lex_lt(b, c),
    ensures
        lex_lt(a, c),
{
    let k1 = choose|k: int| precedes_at(a, b, k);
    let k2 = choose|k: int| precedes_at(b, c, k);
    let k = if k1 <= k2 {
        k1
    } else {
        k2
    };
    assert(precedes_at(a, c, k));
}

/// Of two strings, at most one comes before the other.
pub proof fn lemma_lex_lt_asymmetric(a: Seq<char>, b: Seq<char>)
    requires
        lex_lt(a, b),
    ensures
        !lex_lt(b, a),
{
    if lex_lt(b, a) {
        lemma_lex_lt_transitive(a, b, a);
        lemma_lex_lt_irreflexive(a);
    }
}

/// The first position from `i` on at which `a` and `b` differ or one of
/// them ends.
pub open spec fn parting(a: Seq<char>, b: Seq<char>, i: int) -> int
    decreases a.len() - i,
{
    if 0 <= i < a.len() && i < b.len() && a[i] == b[i] {
        parting(a, b, i + 1)
    } else {
        i
    }
}

proof fn lemma_parting(a: Seq<char>, b: Seq<char>, i: int)
    requires
        0 <= i <= a.len(),
        i <= b.len(),
    ensures
        i <= parting(a, b, i) <= a.len(),
        parting(a, b, i) <= b.len(),
        forall|j: int| i <= j < parting(a, b, i) ==> a[j] == b[j],
        parting(a, b, i) < a.len() && parting(a, b, i) < b.len() ==> a[parting(a, b, i)]
            != b[parting(a, b, i)],
    decreases a.len() - i,
{
    if i < a.len() && i < b.len() && a[i] == b[i] {
        lemma_parting(a, b, i + 1);
    }
}

/// Of two different strings, one comes before the other.
pub proof fn lemma_lex_lt_total(a: Seq<char>, b: Seq<char>)
    ensures
        a == b || lex_lt(a, b) || lex_lt(b, a),
{
    lemma_parting(a, b, 0);
    let k = parting(a, b, 0);
    if k == a.len() && k == b.len() {
        assert(a =~= b);
    } else if k == a.len() {
        assert(precedes_at(a, b, k));
    } else if k == b.len() {
        assert(precedes_at(b, a, k));
    } else if a[k] < b[k] {
        assert(precedes_at(a, b, k));
    } else {
        assert(precedes_at(b, a, k));
    }
}

/// How one string stands to another in lexicographic order.
#[derive(Clone, Copy, Debug, PartialEq, Eq)]
pub enum Order {
    Before,
    Same,
    After,
}

/// Compares two strings in lexicographic order by code point.
pub fn order_of(a: &str, b: &str) -> (r: Order)
    ensures
        r is Before <==> lex_lt(a@, b@),
        r is Same <==> a@ == b@,
        r is After <==> lex_lt(b@, a@),
{
    let la = a.unicode_len();
    let lb = b.unicode_len();
    let mut i: usize = 0;
    while i < la && i < lb
        invariant
            la == a@.len(),
            lb == b@.len(),
            i <= la,
            i <= lb,
            forall|j: int| 0 <= j < i ==> a@[j] == b@[j],
        decreases la - i,
    {
        let ca = a.get_char(i);
        let cb = b.get_char(i);
        if ca < cb {
            proof {
                assert(precedes_at(a@, b@, i as int));
                assert forall|k: int| !precedes_at(b@, a@, k) by {
                    if precedes_at(b@, a@, k) {
                        if k > i {
                            assert(b@[i as int] == a@[i as int]);
                        }
                    }
                }
                assert(a@ != b@);
            }
            return Order::Before;
        }
        if cb < ca {
            proof {
                assert(precedes_at(b@, a@, i as int));
                assert forall|k: int| !precedes_at(a@, b@, k) by {
                    if precedes_at(a@, b@, k) {
                        if k > i {
                            assert(a@[i as int] == b@[i as int]);
                        }
                    }
                }
                assert(a@ != b@);
            }
            return Order::After;
        }
        i = i + 1;
    }
    if la < lb {
        proof {
            assert(precedes_at(a@, b@, la as int));
            lemma_lex_lt_asymmetric(a@, b@);
        }
        Order::Before
    } else if lb < la {
        proof {
            assert(precedes_at(b@, a@, lb as int));
            lemma_lex_lt_asymmetric(b@, a@);
        }
        Order::After
    } else {
        proof {
            assert(a@ =~= b@);
            lemma_lex_lt_irreflexive(a@);
        }
        Order::Same
    }
}

} // verus!
