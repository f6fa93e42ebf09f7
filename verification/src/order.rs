//! The lexicographic order on sequences, by which texts and blobs are
//! compared.

use vstd::prelude::*;

verus! {

/// The code points of a text, as the integers by which it is ordered.
pub open spec fn char_keys(text: Seq<char>) -> Seq<int> {
    Seq::new(text.len(), |i: int| text[i] as int)
}

/// The bytes of a blob, as the integers by which it is ordered.
pub open spec fn byte_keys(blob: Seq<u8>) -> Seq<int> {
    Seq::new(blob.len(), |i: int| blob[i] as int)
}

/// `a` and `b` agree on their first `k` elements.
pub open spec fn agree_before(a: Seq<int>, b: Seq<int>, k: int) -> bool {
    &&& 0 <= k <= a.len()
    &&& k <= b.len()
    &&& forall|i: int| 0 <= i < k ==> a[i] == b[i]
}

/// `a` and `b` agree on their first `k` elements, and there `a` ends or
/// holds the smaller element, while `b` goes on.
pub open spec fn lex_lt_at(a: Seq<int>, b: Seq<int>, k: int) -> bool {
    &&& agree_before(a, b, k)
    &&& k < b.len()
    &&& (k == a.len() || a[k] < b[k])
}

/// `a` comes strictly before `b` in lexicographic order: a proper prefix
/// comes before the longer sequence, and otherwise the first differing
/// element decides.
pub open spec fn lex_lt(a: Seq<int>, b: Seq<int>) -> bool {
    exists|k: int| lex_lt_at(a, b, k)
}

/// Once the first `k` elements are known to agree and position `k` is known
/// to end one of the sequences or to differ, position `k` decides the order.
pub proof fn lemma_lex_decided_at(a: Seq<int>, b: Seq<int>, k: int)
    requires
        agree_before(a, b, k),
        k == a.len() || k == b.len() || a[k] != b[k],
    ensures
        lex_lt(a, b) <==> lex_lt_at(a, b, k),
        lex_lt(b, a) <==> lex_lt_at(b, a, k),
        a == b <==> (k == a.len() && k == b.len()),
{
    if lex_lt(a, b) {
        let j = choose|j: int| lex_lt_at(a, b, j);
        if j < k {
            assert(a[j] == b[j]);
        } else if j > k {
            assert(a[k] == b[k]);
        }
    }
    if lex_lt(b, a) {
        let j = choose|j: int| lex_lt_at(b, a, j);
        if j < k {
            assert(a[j] == b[j]);
        } else if j > k {
            assert(a[k] == b[k]);
        }
    }
    if k == a.len() && k == b.len() {
        assert(a =~= b);
    }
}

/// Of two sequences, one comes before the other or they are equal, and
/// only one of the three.
pub proof fn lemma_lex_trichotomy(a: Seq<int>, b: Seq<int>)
    ensures
        lex_lt(a, b) || lex_lt(b, a) || a == b,
        !(lex_lt(a, b) && lex_lt(b, a)),
        !(lex_lt(a, b) && a == b),
        !(lex_lt(b, a) && a == b),
{
    lemma_lex_trichotomy_from(a, b, 0);
}

proof fn lemma_lex_trichotomy_from(a: Seq<int>, b: Seq<int>, k: int)
    requires
        agree_before(a, b, k),
    ensures
        lex_lt(a, b) || lex_lt(b, a) || a == b,
        !(lex_lt(a, b) && lex_lt(b, a)),
        !(lex_lt(a, b) && a == b),
        !(lex_lt(b, a) && a == b),
    decreases a.len() - k,
{
    if k == a.len() || k == b.len() || a[k] != b[k] {
        lemma_lex_decided_at(a, b, k);
    } else {
        lemma_lex_trichotomy_from(a, b, k + 1);
    }
}

/// The lexicographic order is transitive.
pub proof fn lemma_lex_transitive(a: Seq<int>, b: Seq<int>, c: Seq<int>)
    requires
        lex_lt(a, b),
        lex_lt(b, c),
    ensures
        lex_lt(a, c),
{
    let i = choose|i: int| lex_lt_at(a, b, i);
    let j = choose|j: int| lex_lt_at(b, c, j);
    let k = if i <= j { i } else { j };
    assert(lex_lt_at(a, c, k));
}

/// A proper prefix comes before the sequence it is cut from.
pub proof fn lemma_lex_prefix(a: Seq<int>, b: Seq<int>)
    requires
        a.len() < b.len(),
        a =~= b.take(a.len() as int),
    ensures
        lex_lt(a, b),
{
    assert(lex_lt_at(a, b, a.len() as int));
}

/// Keys of equal texts are equal, and only those.
pub proof fn lemma_char_keys_injective(x: Seq<char>, y: Seq<char>)
    ensures
        char_keys(x) == char_keys(y) <==> x == y,
{
    if char_keys(x) == char_keys(y) {
        assert(x.len() == char_keys(x).len());
        assert(y.len() == char_keys(y).len());
        assert forall|i: int| 0 <= i < x.len() implies x[i] == y[i] by {
            assert(char_keys(x)[i] == char_keys(y)[i]);
        }
        assert(x =~= y);
    }
}

/// Keys of equal blobs are equal, and only those.
pub proof fn lemma_byte_keys_injective(x: Seq<u8>, y: Seq<u8>)
    ensures
        byte_keys(x) == byte_keys(y) <==> x == y,
{
    if byte_keys(x) == byte_keys(y) {
        assert(x.len() == byte_keys(x).len());
        assert(y.len() == byte_keys(y).len());
        assert forall|i: int| 0 <= i < x.len() implies x[i] == y[i] by {
            assert(byte_keys(x)[i] == byte_keys(y)[i]);
        }
        assert(x =~= y);
    }
}

} // verus!
