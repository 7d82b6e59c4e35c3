//! Lexicographic order on byte strings: the order BCS puts map keys in, and
//! the order of byte arrays.
use vstd::prelude::*;

verus! {

/// At index `i`, where `a` and `b` first differ, `a` is the smaller: it
/// ends there and `b` goes on, or its byte is less.
pub open spec fn lex_at(a: Seq<u8>, b: Seq<u8>, i: int) -> bool {
    ||| i == a.len() && i < b.len()
    ||| i < a.len() && i < b.len() && a[i] < b[i]
}

/// `a` sorts strictly before `b`: after a common prefix, `a` ends first or
/// has the smaller byte.
pub open spec fn lex_lt(a: Seq<u8>, b: Seq<u8>) -> bool {
    exists|i: int| 0 <= i <= a.len() && i <= b.len() && a.take(i) == b.take(i) && #[trigger] lex_at(a, b, i)
}

/// No index other than the first difference can witness the order.
proof fn lemma_lex_first_difference(a: Seq<u8>, b: Seq<u8>, i: int)
    requires
        0 <= i <= a.len(),
        i <= b.len(),
        a.take(i) == b.take(i),
        i == a.len() || i == b.len() || a[i] != b[i],
    ensures
        lex_lt(a, b) == lex_at(a, b, i),
{
    if lex_lt(a, b) {
        let j = choose|j: int|
            0 <= j <= a.len() && j <= b.len() && a.take(j) == b.take(j) && #[trigger] lex_at(a, b, j);
        if j < i {
            assert(a.take(i)[j] == a[j]);
            assert(b.take(i)[j] == b[j]);
            assert(a[j] == b[j]);
            assert(false);
        } else if j > i {
            assert(a.take(j)[i] == b.take(j)[i]);
            assert(false);
        }
    }
    if lex_at(a, b, i) {
        assert(lex_lt(a, b));
    }
}

/// Equal-length byte strings are equal or ordered one way.
pub proof fn lemma_lex_total(a: Seq<u8>, b: Seq<u8>)
    requires
        a.len() == b.len(),
    ensures
        a == b || lex_lt(a, b) || lex_lt(b, a),
    decreases a.len(),
{
    if a.len() == 0 {
        assert(a =~= b);
    } else if a[0] != b[0] {
        assert(a.take(0) =~= b.take(0));
        if a[0] < b[0] {
            assert(lex_at(a, b, 0));
        } else {
            assert(lex_at(b, a, 0));
        }
    } else {
        let a1 = a.drop_first();
        let b1 = b.drop_first();
        lemma_lex_total(a1, b1);
        if a1 == b1 {
            assert forall|k: int| 0 <= k < a.len() implies a[k] == b[k] by {
                if k > 0 {
                    assert(a[k] == a1[k - 1] && b[k] == b1[k - 1]);
                }
            }
            assert(a =~= b);
        } else if lex_lt(a1, b1) {
            let j = choose|j: int| 0 <= j <= a1.len() && j <= b1.len() && a1.take(j) == b1.take(j) && #[trigger] lex_at(a1, b1, j);
            assert(a.take(j + 1) =~= seq![a[0]] + a1.take(j));
            assert(b.take(j + 1) =~= seq![b[0]] + b1.take(j));
            assert(lex_at(a, b, j + 1));
        } else {
            let j = choose|j: int| 0 <= j <= b1.len() && j <= a1.len() && b1.take(j) == a1.take(j) && #[trigger] lex_at(b1, a1, j);
            assert(a.take(j + 1) =~= seq![a[0]] + a1.take(j));
            assert(b.take(j + 1) =~= seq![b[0]] + b1.take(j));
            assert(lex_at(b, a, j + 1));
        }
    }
}

/// The empty string sorts before every other.
pub proof fn lemma_lex_empty(b: Seq<u8>)
    requires
        b.len() > 0,
    ensures
        lex_lt(Seq::empty(), b),
{
    assert(Seq::<u8>::empty().take(0) =~= b.take(0));
    assert(lex_at(Seq::empty(), b, 0));
}

/// Nothing sorts strictly before itself.
pub proof fn lemma_lex_irreflexive(a: Seq<u8>)
    ensures
        !lex_lt(a, a),
{
    if lex_lt(a, a) {
        let i = choose|i: int| 0 <= i <= a.len() && i <= a.len() && a.take(i) == a.take(i) && #[trigger] lex_at(a, a, i);
    }
}

/// Lexicographic order is transitive.
pub proof fn lemma_lex_trans(a: Seq<u8>, b: Seq<u8>, c: Seq<u8>)
    requires
        lex_lt(a, b),
        lex_lt(b, c),
    ensures
        lex_lt(a, c),
{
    let i = choose|i: int| 0 <= i <= a.len() && i <= b.len() && a.take(i) == b.take(i) && #[trigger] lex_at(a, b, i);
    let j = choose|j: int| 0 <= j <= b.len() && j <= c.len() && b.take(j) == c.take(j) && #[trigger] lex_at(b, c, j);
    let k = if i < j { i } else { j };
    assert(a.take(k) =~= c.take(k)) by {
        assert forall|t: int| 0 <= t < k implies a.take(k)[t] == c.take(k)[t] by {
            assert(a.take(i)[t] == b.take(i)[t]);
            assert(b.take(j)[t] == c.take(j)[t]);
        }
    }
    if i < j {
        if i < a.len() {
            assert(b.take(j)[i] == c.take(j)[i]);
        }
        assert(lex_at(a, c, k));
    } else if j < i {
        assert(a.take(i)[j] == b.take(i)[j]);
        assert(lex_at(a, c, k));
    } else {
        assert(lex_at(a, c, k));
    }
}

/// Whether `a` sorts strictly before `b`.
pub fn bytes_lt(a: &[u8], b: &[u8]) -> (lt: bool)
    ensures
        lt == lex_lt(a@, b@),
{
    let mut i: usize = 0;
    while i < a.len() && i < b.len()
        invariant
            i <= a@.len(),
            i <= b@.len(),
            a@.take(i as int) == b@.take(i as int),
        decreases a@.len() - i,
    {
        if a[i] != b[i] {
            proof {
                lemma_lex_first_difference(a@, b@, i as int);
            }
            return a[i] < b[i];
        }
        assert(a@.take(i + 1) =~= a@.take(i as int).push(a@[i as int]));
        assert(b@.take(i + 1) =~= b@.take(i as int).push(b@[i as int]));
        i = i + 1;
    }
    proof {
        lemma_lex_first_difference(a@, b@, i as int);
    }
    i < b.len()
}

/// Whether the array `a` sorts strictly before `b`.
pub fn array_lt<const N: usize>(a: &[u8; N], b: &[u8; N]) -> (lt: bool)
    ensures
        lt == lex_lt(a@, b@),
{
    bytes_lt(a.as_slice(), b.as_slice())
}

} // verus!
