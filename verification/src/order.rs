//! Stable ordering by an integer key.

use crate::text::chars_of;
use vstd::prelude::*;

verus! {

/// Position `a` comes before position `b`: its key is smaller, or the keys
/// are equal and `a` stands first.
pub open spec fn comes_before(keys: Seq<u64>, a: int, b: int) -> bool {
    keys[a] < keys[b] || (keys[a] == keys[b] && a < b)
}

/// `perm` lists every position of `keys` once, by rising key; positions of
/// equal key keep their order.
pub open spec fn is_stable_order(keys: Seq<u64>, perm: Seq<usize>) -> bool {
    &&& perm.len() == keys.len()
    &&& forall|i: int| 0 <= i < perm.len() ==> (#[trigger] perm[i]) < keys.len()
    &&& forall|i: int, j: int|
        0 <= i < j < perm.len() ==> comes_before(keys, (#[trigger] perm[i]) as int, (#[trigger] perm[j]) as int)
    &&& forall|x: usize| x < keys.len() ==> #[trigger] perm.contains(x)
}

/// Where a key `k` goes among the first `p` positions of an ordered `perm`:
/// behind the last position whose key is not greater.
pub open spec fn insert_pos(keys: Seq<u64>, perm: Seq<usize>, k: u64, p: nat) -> nat
    decreases p,
{
    if p == 0 || p > perm.len() {
        0
    } else if keys[perm[p - 1] as int] > k {
        insert_pos(keys, perm, k, (p - 1) as nat)
    } else {
        p
    }
}

/// The stable order of the first `n` positions of `keys`.
pub open spec fn stable_perm_upto(keys: Seq<u64>, n: nat) -> Seq<usize>
    decreases n,
{
    if n == 0 || n > keys.len() {
        Seq::empty()
    } else {
        let prev = stable_perm_upto(keys, (n - 1) as nat);
        prev.insert(insert_pos(keys, prev, keys[n - 1], prev.len()) as int, (n - 1) as usize)
    }
}

/// The positions of `keys` by rising key; positions of equal key keep
/// their order.
pub open spec fn stable_perm(keys: Seq<u64>) -> Seq<usize> {
    stable_perm_upto(keys, keys.len())
}

/// The items in the order that `perm` gives.
pub open spec fn arrange<T>(items: Seq<T>, perm: Seq<usize>) -> Seq<T> {
    Seq::new(perm.len(), |i: int| items[perm[i] as int])
}

proof fn lemma_insert_pos(keys: Seq<u64>, perm: Seq<usize>, k: u64, p: nat)
    requires
        p <= perm.len(),
        forall|i: int| 0 <= i < perm.len() ==> (#[trigger] perm[i]) < keys.len(),
        forall|i: int, j: int|
            0 <= i < j < perm.len() ==> keys[(#[trigger] perm[i]) as int] <= keys[(#[trigger] perm[j]) as int],
    ensures
        insert_pos(keys, perm, k, p) <= p,
        forall|i: int| 0 <= i < insert_pos(keys, perm, k, p) ==> keys[(#[trigger] perm[i]) as int] <= k,
        forall|i: int| insert_pos(keys, perm, k, p) <= i < p ==> keys[(#[trigger] perm[i]) as int] > k,
    decreases p,
{
    if p > 0 && keys[perm[p - 1] as int] > k {
        lemma_insert_pos(keys, perm, k, (p - 1) as nat);
    }
}

/// The stable order of the first `n` positions lists each of them once, by
/// rising key, positions of equal key in their own order.
pub proof fn lemma_stable_perm_upto(keys: Seq<u64>, n: nat)
    requires
        n <= keys.len() <= usize::MAX,
    ensures
        is_stable_order(keys.take(n as int), stable_perm_upto(keys, n)),
    decreases n,
{
    let perm = stable_perm_upto(keys, n);
    let ks = keys.take(n as int);
    if n > 0 {
        lemma_stable_perm_upto(keys, (n - 1) as nat);
        let prev = stable_perm_upto(keys, (n - 1) as nat);
        let k = keys[n - 1];
        assert forall|i: int, j: int| 0 <= i < j < prev.len() implies keys[(#[trigger] prev[i]) as int]
            <= keys[(#[trigger] prev[j]) as int] by {
        }
        lemma_insert_pos(keys, prev, k, prev.len());
        let p = insert_pos(keys, prev, k, prev.len()) as int;
        assert forall|i: int, j: int| 0 <= i < j < perm.len() implies comes_before(
            ks,
            (#[trigger] perm[i]) as int,
            (#[trigger] perm[j]) as int,
        ) by {
        }
        assert forall|x: usize| x < ks.len() implies #[trigger] perm.contains(x) by {
            if x == n - 1 {
                assert(perm[p] == x);
            } else {
                assert(prev.contains(x));
                let i = choose|i: int| 0 <= i < prev.len() && prev[i] == x;
                if i < p {
                    assert(perm[i] == x);
                } else {
                    assert(perm[i + 1] == x);
                }
            }
        }
    }
}

/// `stable_perm` is a stable order of its keys.
pub proof fn lemma_stable_perm(keys: Seq<u64>)
    requires
        keys.len() <= usize::MAX,
    ensures
        is_stable_order(keys, stable_perm(keys)),
{
    lemma_stable_perm_upto(keys, keys.len());
}

/// Along the stable order the keys do not fall.
pub proof fn lemma_stable_perm_rises(keys: Seq<u64>)
    requires
        keys.len() <= usize::MAX,
    ensures
        stable_perm(keys).len() == keys.len(),
        forall|i: int| 0 <= i < keys.len() ==> (#[trigger] stable_perm(keys)[i]) < keys.len(),
        forall|i: int, j: int|
            0 <= i < j < keys.len() ==> keys[(#[trigger] stable_perm(keys)[i]) as int] <= keys[(
            #[trigger] stable_perm(keys)[j]) as int],
        forall|i: int, j: int|
            0 <= i < j < keys.len() ==> (#[trigger] stable_perm(keys)[i]) != (#[trigger] stable_perm(
                keys,
            )[j]),
{
    lemma_stable_perm(keys);
    let perm = stable_perm(keys);
    assert forall|i: int, j: int| 0 <= i < j < keys.len() implies keys[(#[trigger] perm[i]) as int]
        <= keys[(#[trigger] perm[j]) as int] && perm[i] != perm[j] by {
    }
}

proof fn lemma_same_upto(keys: Seq<u64>, p: Seq<usize>, q: Seq<usize>, n: int)
    requires
        is_stable_order(keys, p),
        is_stable_order(keys, q),
        0 <= n <= keys.len(),
    ensures
        forall|k: int| 0 <= k < n ==> p[k] == q[k],
    decreases n,
{
    if n > 0 {
        lemma_same_upto(keys, p, q, n - 1);
        let i = n - 1;
        if p[i] != q[i] {
            assert(q.contains(p[i]));
            let j = choose|j: int| 0 <= j < q.len() && q[j] == p[i];
            assert(p.contains(q[i]));
            let k = choose|k: int| 0 <= k < p.len() && p[k] == q[i];
            if j < i {
                assert(comes_before(keys, p[j] as int, p[i] as int));
            } else if k < i {
                assert(comes_before(keys, q[k] as int, q[i] as int));
            } else {
                assert(comes_before(keys, q[i] as int, q[j] as int));
                assert(comes_before(keys, p[i] as int, p[k] as int));
            }
        }
    }
}

/// There is one stable order of given keys only.
pub proof fn lemma_stable_order_unique(keys: Seq<u64>, p: Seq<usize>, q: Seq<usize>)
    requires
        is_stable_order(keys, p),
        is_stable_order(keys, q),
    ensures
        p == q,
{
    lemma_same_upto(keys, p, q, keys.len() as int);
}

/// The positions of `keys` by rising key, stably.
pub fn stable_order(keys: &Vec<u64>) -> (perm: Vec<usize>)
    ensures
        perm@ == stable_perm(keys@),
        is_stable_order(keys@, perm@),
{
    let mut perm: Vec<usize> = Vec::new();
    let mut n: usize = 0;
    while n < keys.len()
        invariant
            n <= keys.len(),
            perm@ == stable_perm_upto(keys@, n as nat),
            perm@.len() == n,
            forall|i: int| 0 <= i < perm@.len() ==> (#[trigger] perm@[i]) < n,
        decreases keys.len() - n,
    {
        let k = keys[n];
        let mut p: usize = perm.len();
        while p > 0 && keys[perm[p - 1]] > k
            invariant
                p <= perm@.len(),
                n < keys.len(),
                k == keys@[n as int],
                forall|i: int| 0 <= i < perm@.len() ==> (#[trigger] perm@[i]) < n,
                insert_pos(keys@, perm@, k, perm@.len()) == insert_pos(keys@, perm@, k, p as nat),
            decreases p,
        {
            p -= 1;
        }
        perm.insert(p, n);
        n += 1;
    }
    proof {
        lemma_stable_perm(keys@);
    }
    perm
}

/// `a` is not behind `b` in the order of a dictionary whose alphabet is
/// the order of the code points.
pub open spec fn word_le(a: Seq<char>, b: Seq<char>) -> bool
    decreases a.len(),
{
    if a.len() == 0 {
        true
    } else if b.len() == 0 {
        false
    } else if a[0] != b[0] {
        a[0] < b[0]
    } else {
        word_le(a.drop_first(), b.drop_first())
    }
}

/// Where a word `k` goes among the first `p` positions of an ordered
/// `perm`: behind the last position whose word is not behind `k`.
pub open spec fn word_insert_pos(keys: Seq<Seq<char>>, perm: Seq<usize>, k: Seq<char>, p: nat) -> nat
    decreases p,
{
    if p == 0 || p > perm.len() {
        0
    } else if !word_le(keys[perm[p - 1] as int], k) {
        word_insert_pos(keys, perm, k, (p - 1) as nat)
    } else {
        p
    }
}

/// The alphabetical order of the first `n` positions of `keys`; positions
/// of equal words keep their order.
pub open spec fn word_perm_upto(keys: Seq<Seq<char>>, n: nat) -> Seq<usize>
    decreases n,
{
    if n == 0 || n > keys.len() {
        Seq::empty()
    } else {
        let prev = word_perm_upto(keys, (n - 1) as nat);
        prev.insert(word_insert_pos(keys, prev, keys[n - 1], prev.len()) as int, (n - 1) as usize)
    }
}

/// The positions of `keys` in alphabetical order; positions of equal words
/// keep their order.
pub open spec fn word_perm(keys: Seq<Seq<char>>) -> Seq<usize> {
    word_perm_upto(keys, keys.len())
}

/// Of two words one is not behind the other.
pub proof fn lemma_word_le_total(a: Seq<char>, b: Seq<char>)
    ensures
        word_le(a, b) || word_le(b, a),
    decreases a.len(),
{
    if a.len() > 0 && b.len() > 0 && a[0] == b[0] {
        lemma_word_le_total(a.drop_first(), b.drop_first());
    }
}

/// A word that is not behind a second one that is not behind a third is
/// not behind the third.
pub proof fn lemma_word_le_transitive(a: Seq<char>, b: Seq<char>, c: Seq<char>)
    requires
        word_le(a, b),
        word_le(b, c),
    ensures
        word_le(a, c),
    decreases a.len(),
{
    if a.len() > 0 && b.len() > 0 && c.len() > 0 && a[0] == b[0] && b[0] == c[0] {
        lemma_word_le_transitive(a.drop_first(), b.drop_first(), c.drop_first());
    }
}

/// The alphabetical order of the first `n` positions lists each of them
/// once, and no word in it stands before a word that is before it in the
/// alphabet.
pub proof fn lemma_word_perm_upto(keys: Seq<Seq<char>>, n: nat)
    requires
        n <= keys.len() <= usize::MAX,
    ensures
        word_perm_upto(keys, n).len() == n,
        forall|i: int| 0 <= i < n ==> (#[trigger] word_perm_upto(keys, n)[i]) < n,
        forall|i: int, j: int|
            0 <= i < j < n ==> word_le(
                keys[(#[trigger] word_perm_upto(keys, n)[i]) as int],
                keys[(#[trigger] word_perm_upto(keys, n)[j]) as int],
            ),
        forall|x: usize| x < n ==> #[trigger] word_perm_upto(keys, n).contains(x),
    decreases n,
{
    let perm = word_perm_upto(keys, n);
    if n > 0 {
        lemma_word_perm_upto(keys, (n - 1) as nat);
        let prev = word_perm_upto(keys, (n - 1) as nat);
        let k = keys[n - 1];
        lemma_word_insert_pos(keys, prev, k, prev.len());
        let p = word_insert_pos(keys, prev, k, prev.len()) as int;
        assert(perm == prev.insert(p, (n - 1) as usize));
        assert forall|i: int, j: int| 0 <= i < j < n implies word_le(
            keys[(#[trigger] perm[i]) as int],
            keys[(#[trigger] perm[j]) as int],
        ) by {
            if i < p && j > p {
                assert(word_le(keys[prev[i] as int], keys[prev[j - 1] as int]));
            } else if i < p && j < p {
                assert(word_le(keys[prev[i] as int], keys[prev[j] as int]));
            } else if i > p {
                assert(word_le(keys[prev[i - 1] as int], keys[prev[j - 1] as int]));
            } else if i == p {
                assert(!word_le(keys[prev[j - 1] as int], k));
                lemma_word_le_total(keys[prev[j - 1] as int], k);
            } else {
                assert(word_le(keys[prev[i] as int], k));
            }
        }
        assert forall|x: usize| x < n implies #[trigger] perm.contains(x) by {
            if x == n - 1 {
                assert(perm[p] == x);
            } else {
                assert(prev.contains(x));
                let i = choose|i: int| 0 <= i < prev.len() && prev[i] == x;
                if i < p {
                    assert(perm[i] == x);
                } else {
                    assert(perm[i + 1] == x);
                }
            }
        }
    }
}

proof fn lemma_word_insert_pos(keys: Seq<Seq<char>>, perm: Seq<usize>, k: Seq<char>, p: nat)
    requires
        p <= perm.len(),
        forall|i: int| 0 <= i < perm.len() ==> (#[trigger] perm[i]) < keys.len(),
        forall|i: int, j: int|
            0 <= i < j < perm.len() ==> word_le(
                keys[(#[trigger] perm[i]) as int],
                keys[(#[trigger] perm[j]) as int],
            ),
    ensures
        word_insert_pos(keys, perm, k, p) <= p,
        forall|i: int|
            0 <= i < word_insert_pos(keys, perm, k, p) ==> word_le(keys[(#[trigger] perm[i]) as int], k),
        forall|i: int|
            word_insert_pos(keys, perm, k, p) <= i < p ==> !word_le(keys[(#[trigger] perm[i]) as int], k),
    decreases p,
{
    if p > 0 {
        if !word_le(keys[perm[p - 1] as int], k) {
            lemma_word_insert_pos(keys, perm, k, (p - 1) as nat);
        } else {
            assert forall|i: int| 0 <= i < p implies word_le(keys[(#[trigger] perm[i]) as int], k) by {
                if i < p - 1 {
                    lemma_word_le_transitive(keys[perm[i] as int], keys[perm[p - 1] as int], k);
                }
            }
        }
    }
}

/// Whether `a` is not behind `b` in alphabetical order.
pub fn word_not_behind(a: &str, b: &str) -> (r: bool)
    ensures
        r == word_le(a@, b@),
{
    let x = chars_of(a);
    let y = chars_of(b);
    let mut i: usize = 0;
    assert(x@.skip(0) =~= x@);
    assert(y@.skip(0) =~= y@);
    loop
        invariant
            i <= x.len(),
            i <= y.len(),
            x@ == a@,
            y@ == b@,
            word_le(x@, y@) == word_le(x@.skip(i as int), y@.skip(i as int)),
        decreases x.len() - i,
    {
        if i == x.len() {
            return true;
        }
        if i == y.len() {
            return false;
        }
        if x[i] != y[i] {
            return x[i] < y[i];
        }
        assert(x@.skip(i as int).drop_first() =~= x@.skip(i + 1));
        assert(y@.skip(i as int).drop_first() =~= y@.skip(i + 1));
        i += 1;
    }
}

/// The positions of `keys` in alphabetical order, stably.
pub fn word_order(keys: &Vec<String>) -> (perm: Vec<usize>)
    ensures
        perm@ == word_perm(keys.deep_view()),
        perm@.len() == keys@.len(),
        forall|i: int| 0 <= i < perm@.len() ==> (#[trigger] perm@[i]) < keys@.len(),
{
    let ghost kv = keys.deep_view();
    let mut perm: Vec<usize> = Vec::new();
    let mut n: usize = 0;
    while n < keys.len()
        invariant
            n <= keys.len(),
            kv == keys.deep_view(),
            perm@ == word_perm_upto(kv, n as nat),
            perm@.len() == n,
            forall|i: int| 0 <= i < perm@.len() ==> (#[trigger] perm@[i]) < n,
        decreases keys.len() - n,
    {
        let mut p: usize = perm.len();
        while p > 0 && !word_not_behind(keys[perm[p - 1]].as_str(), keys[n].as_str())
            invariant
                p <= perm@.len(),
                n < keys.len(),
                kv == keys.deep_view(),
                forall|i: int| 0 <= i < perm@.len() ==> (#[trigger] perm@[i]) < n,
                word_insert_pos(kv, perm@, kv[n as int], perm@.len()) == word_insert_pos(
                    kv,
                    perm@,
                    kv[n as int],
                    p as nat,
                ),
            decreases p,
        {
            p -= 1;
        }
        perm.insert(p, n);
        n += 1;
    }
    perm
}

} // verus!
