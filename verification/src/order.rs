use crate::itemidlist::{segment_bytes, ItemIdList};
use vstd::prelude::*;

verus! {

/// Whether `less` orders its values strictly and totally: nothing comes
/// before itself, the order carries over a middle value, and of two
/// different values one comes before the other.
pub open spec fn strict_total_order<T>(less: spec_fn(T, T) -> bool) -> bool {
    &&& forall|x: T| !#[trigger] less(x, x)
    &&& forall|x: T, y: T, z: T| #[trigger] less(x, y) && #[trigger] less(y, z) ==> less(x, z)
    &&& forall|x: T, y: T| x != y ==> #[trigger] less(x, y) || less(y, x)
}

/// Whether position `k` settles that `a` comes before `b`: the two agree on
/// everything before `k`, and there either `a` has ended while `b` goes on,
/// or `a` holds the lesser value.
pub open spec fn decided_at<T>(a: Seq<T>, b: Seq<T>, k: int, less: spec_fn(T, T) -> bool) -> bool {
    &&& 0 <= k <= a.len()
    &&& k <= b.len()
    &&& forall|j: int| 0 <= j < k ==> a[j] == b[j]
    &&& k < b.len()
    &&& k == a.len() || less(a[k], b[k])
}

/// The lexicographic order that `less` gives on sequences: at the first
/// place where the two differ the lesser value decides, and a sequence comes
/// before every longer one that starts with it.
pub open spec fn lex_before<T>(a: Seq<T>, b: Seq<T>, less: spec_fn(T, T) -> bool) -> bool {
    exists|k: int| decided_at(a, b, k, less)
}

/// The order of two bytes as unsigned numbers.
pub open spec fn byte_less() -> spec_fn(u8, u8) -> bool {
    |x: u8, y: u8| x < y
}

/// Whether payload `a` comes before payload `b`, byte by byte.
pub open spec fn bytes_before(a: Seq<u8>, b: Seq<u8>) -> bool {
    lex_before(a, b, byte_less())
}

/// The order of two payloads.
pub open spec fn payload_less() -> spec_fn(Seq<u8>, Seq<u8>) -> bool {
    |p: Seq<u8>, q: Seq<u8>| bytes_before(p, q)
}

/// Whether chain `a` comes before chain `b`: the first pair of segments that
/// differ decides by their bytes, and a chain comes before every longer one
/// that starts with it.
pub open spec fn chain_before(a: Seq<Seq<u8>>, b: Seq<Seq<u8>>) -> bool {
    lex_before(a, b, payload_less())
}

/// The order of two payloads as a number: -1 when `a` comes first, 0 when
/// the two are equal, 1 when `b` comes first.
pub open spec fn bytes_order(a: Seq<u8>, b: Seq<u8>) -> int {
    if bytes_before(a, b) {
        -1
    } else if a == b {
        0
    } else {
        1
    }
}

/// The order of two chains as a number: -1 when `a` comes first, 0 when the
/// two are equal, 1 when `b` comes first.
pub open spec fn chain_order(a: Seq<Seq<u8>>, b: Seq<Seq<u8>>) -> int {
    if chain_before(a, b) {
        -1
    } else if a == b {
        0
    } else {
        1
    }
}

/// No sequence comes before itself.
pub proof fn lemma_lex_irreflexive<T>(a: Seq<T>, less: spec_fn(T, T) -> bool)
    requires
        strict_total_order(less),
    ensures
        !lex_before(a, a, less),
{
}

/// Two sequences do not come before each other.
pub proof fn lemma_lex_asymmetric<T>(a: Seq<T>, b: Seq<T>, less: spec_fn(T, T) -> bool)
    requires
        strict_total_order(less),
        lex_before(a, b, less),
    ensures
        !lex_before(b, a, less),
{
    if lex_before(b, a, less) {
        let k1 = choose|k: int| decided_at(a, b, k, less);
        let k2 = choose|k: int| decided_at(b, a, k, less);
        if k1 < k2 {
            assert(b[k1] == a[k1]);
        } else if k2 < k1 {
            assert(a[k2] == b[k2]);
        } else {
            assert(less(a[k1], b[k1]) && less(b[k1], a[k1]));
        }
    }
}

/// What comes before something that comes before a third comes before the
/// third.
pub proof fn lemma_lex_transitive<T>(
    a: Seq<T>,
    b: Seq<T>,
    c: Seq<T>,
    less: spec_fn(T, T) -> bool,
)
    requires
        strict_total_order(less),
        lex_before(a, b, less),
        lex_before(b, c, less),
    ensures
        lex_before(a, c, less),
{
    let k1 = choose|k: int| decided_at(a, b, k, less);
    let k2 = choose|k: int| decided_at(b, c, k, less);
    let k = if k1 <= k2 {
        k1
    } else {
        k2
    };
    assert forall|j: int| 0 <= j < k implies a[j] == c[j] by {
        assert(a[j] == b[j]);
        assert(b[j] == c[j]);
    }
    if k1 < k2 {
        assert(b[k1] == c[k1]);
    } else if k2 < k1 {
        assert(a[k2] == b[k2]);
    } else {
        if k1 < a.len() {
            assert(less(a[k], b[k]) && less(b[k], c[k]));
        }
    }
    assert(decided_at(a, c, k, less));
}

/// Of two sequences that agree on their first `n` places, one comes before
/// the other unless they are equal.
pub proof fn lemma_lex_total_from<T>(a: Seq<T>, b: Seq<T>, n: int, less: spec_fn(T, T) -> bool)
    requires
        strict_total_order(less),
        0 <= n <= a.len(),
        n <= b.len(),
        forall|j: int| 0 <= j < n ==> a[j] == b[j],
    ensures
        a == b || lex_before(a, b, less) || lex_before(b, a, less),
    decreases a.len() - n,
{
    if n == a.len() && n == b.len() {
        assert(a =~= b);
    } else if n == a.len() {
        assert(decided_at(a, b, n, less));
    } else if n == b.len() {
        assert(decided_at(b, a, n, less));
    } else if a[n] == b[n] {
        lemma_lex_total_from(a, b, n + 1, less);
    } else if less(a[n], b[n]) {
        assert(decided_at(a, b, n, less));
    } else {
        assert(less(b[n], a[n]));
        assert(decided_at(b, a, n, less));
    }
}

/// The lexicographic order over a strict total order is a strict total order
/// again.
pub proof fn lemma_lex_strict_total_order<T>(less: spec_fn(T, T) -> bool)
    requires
        strict_total_order(less),
    ensures
        strict_total_order(|a: Seq<T>, b: Seq<T>| lex_before(a, b, less)),
{
    let lex = |a: Seq<T>, b: Seq<T>| lex_before(a, b, less);
    assert forall|a: Seq<T>| !#[trigger] lex(a, a) by {
        lemma_lex_irreflexive(a, less);
    }
    assert forall|a: Seq<T>, b: Seq<T>, c: Seq<T>| #[trigger] lex(a, b) && #[trigger] lex(
        b,
        c,
    ) implies lex(a, c) by {
        lemma_lex_transitive(a, b, c, less);
    }
    assert forall|a: Seq<T>, b: Seq<T>| a != b implies #[trigger] lex(a, b) || lex(b, a) by {
        lemma_lex_total_from(a, b, 0, less);
    }
}

/// Payloads are strictly and totally ordered byte by byte.
pub proof fn lemma_payload_order()
    ensures
        strict_total_order(byte_less()),
        strict_total_order(payload_less()),
{
    lemma_lex_strict_total_order(byte_less());
    let lex = |a: Seq<u8>, b: Seq<u8>| lex_before(a, b, byte_less());
    assert forall|a: Seq<u8>, b: Seq<u8>| lex(a, b) == #[trigger] payload_less()(a, b) by {}
    assert(strict_total_order(payload_less()));
}

/// Swapping the two chains negates the order: if `a` comes before `b` then
/// `b` comes after `a`, and the other way round.
pub proof fn lemma_chain_order_antisymmetric(a: Seq<Seq<u8>>, b: Seq<Seq<u8>>)
    ensures
        chain_order(a, b) == -chain_order(b, a),
{
    lemma_payload_order();
    if chain_before(a, b) {
        lemma_lex_asymmetric(a, b, payload_less());
        lemma_lex_irreflexive(a, payload_less());
    } else if chain_before(b, a) {
        lemma_lex_irreflexive(a, payload_less());
    } else {
        lemma_lex_total_from(a, b, 0, payload_less());
    }
}

/// Two chains compare as equal exactly when they are the same chain.
pub proof fn lemma_chain_order_equal(a: Seq<Seq<u8>>, b: Seq<Seq<u8>>)
    ensures
        chain_order(a, b) == 0 <==> a == b,
{
    lemma_payload_order();
    lemma_lex_irreflexive(a, payload_less());
}

/// The order carries over a middle chain: if `a` is not after `b` and `b`
/// is not after `c`, then `a` is not after `c`, and it is strictly before
/// `c` if either step is strict.
pub proof fn lemma_chain_order_transitive(a: Seq<Seq<u8>>, b: Seq<Seq<u8>>, c: Seq<Seq<u8>>)
    requires
        chain_order(a, b) <= 0,
        chain_order(b, c) <= 0,
    ensures
        chain_order(a, c) <= 0,
        chain_order(a, b) < 0 || chain_order(b, c) < 0 ==> chain_order(a, c) < 0,
{
    lemma_payload_order();
    if chain_before(a, b) && chain_before(b, c) {
        lemma_lex_transitive(a, b, c, payload_less());
    }
}

/// The order of chains is the lexicographic one over bytes with the prefix
/// rule: `a` comes before `b` exactly when, at the first segment where they
/// differ, `a` has ended or holds the payload that comes first byte by byte.
pub proof fn lemma_chain_order_lexicographic(a: Seq<Seq<u8>>, b: Seq<Seq<u8>>)
    ensures
        chain_order(a, b) < 0 <==> exists|k: int|
            0 <= k <= a.len() && k < b.len() && a.take(k) == b.take(k) && (k == a.len()
                || bytes_order(a[k], b[k]) < 0),
{
    if chain_order(a, b) < 0 {
        let k = choose|k: int| decided_at(a, b, k, payload_less());
        assert(a.take(k) =~= b.take(k));
        assert(k == a.len() || bytes_order(a[k], b[k]) < 0);
    }
    if exists|k: int|
        0 <= k <= a.len() && k < b.len() && a.take(k) == b.take(k) && (k == a.len() || bytes_order(
            a[k],
            b[k],
        ) < 0) {
        let k = choose|k: int|
            0 <= k <= a.len() && k < b.len() && a.take(k) == b.take(k) && (k == a.len()
                || bytes_order(a[k], b[k]) < 0);
        assert forall|j: int| 0 <= j < k implies a[j] == b[j] by {
            assert(a.take(k)[j] == b.take(k)[j]);
        }
        assert(decided_at(a, b, k, payload_less()));
    }
}

/// Orders two payloads byte by byte, each byte as an unsigned number; a
/// payload comes before every longer one that starts with it.
pub fn compare_bytes(a: &[u8], b: &[u8]) -> (r: i16)
    ensures
        r as int == bytes_order(a@, b@),
{
    let mut i: usize = 0;
    while i < a.len() && i < b.len()
        invariant
            i <= a@.len(),
            i <= b@.len(),
            forall|j: int| 0 <= j < i ==> a@[j] == b@[j],
        decreases a@.len() - i,
    {
        if a[i] < b[i] {
            assert(decided_at(a@, b@, i as int, byte_less()));
            return -1;
        }
        if a[i] > b[i] {
            proof {
                assert(decided_at(b@, a@, i as int, byte_less()));
                lemma_payload_order();
                lemma_lex_asymmetric(b@, a@, byte_less());
            }
            return 1;
        }
        i = i + 1;
    }
    proof {
        lemma_payload_order();
    }
    if i < b.len() {
        assert(decided_at(a@, b@, i as int, byte_less()));
        -1
    } else if i < a.len() {
        proof {
            assert(decided_at(b@, a@, i as int, byte_less()));
            lemma_lex_asymmetric(b@, a@, byte_less());
        }
        1
    } else {
        proof {
            assert(a@ =~= b@);
            lemma_lex_irreflexive(a@, byte_less());
        }
        0
    }
}

impl<'a> ItemIdList<'a> {
    /// Orders two chains for sorting: -1 when this chain comes first, 0 when
    /// the two are equal, 1 when `other` comes first. The chains are compared
    /// segment by segment; the first pair of segments that differ decides, by
    /// their bytes; a chain comes before every longer one that starts with it.
    pub fn compare<'b>(&self, other: &ItemIdList<'b>) -> (r: i16)
        ensures
            r as int == chain_order(self@, other@),
    {
        let mut i: usize = 0;
        while i < self.0.len() && i < other.0.len()
            invariant
                i <= self@.len(),
                i <= other@.len(),
                forall|j: int| 0 <= j < i ==> self@[j] == other@[j],
            decreases self@.len() - i,
        {
            let order = compare_bytes(segment_bytes(&self.0[i]), segment_bytes(&other.0[i]));
            proof {
                lemma_payload_order();
            }
            if order < 0 {
                assert(payload_less()(self@[i as int], other@[i as int]));
                assert(decided_at(self@, other@, i as int, payload_less()));
                return -1;
            }
            if order > 0 {
                proof {
                    assert(payload_less()(other@[i as int], self@[i as int]));
                    assert(decided_at(other@, self@, i as int, payload_less()));
                    lemma_lex_asymmetric(other@, self@, payload_less());
                }
                return 1;
            }
            i = i + 1;
        }
        proof {
            lemma_payload_order();
        }
        if i < other.0.len() {
            assert(decided_at(self@, other@, i as int, payload_less()));
            -1
        } else if i < self.0.len() {
            proof {
                assert(decided_at(other@, self@, i as int, payload_less()));
                lemma_lex_asymmetric(other@, self@, payload_less());
            }
            1
        } else {
            proof {
                assert(self@ =~= other@);
                lemma_lex_irreflexive(self@, payload_less());
            }
            0
        }
    }
}

} // verus!
