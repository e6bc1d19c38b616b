//! Strictly ascending runs without repeats, kept by inserting one value
//! at a time; the order of each element type is a strict total order on
//! a key the type names.

use vstd::prelude::*;

use crate::text::{lemma_text_lt_order, str_less, text_lt};

verus! {

/// A type whose values are ordered by a key under a strict total order.
pub trait SortedKey: Sized {
    type Key;

    spec fn key(&self) -> Self::Key;

    spec fn key_lt(a: Self::Key, b: Self::Key) -> bool;

    proof fn lemma_key_order(a: Self::Key, b: Self::Key, c: Self::Key)
        ensures
            !Self::key_lt(a, a),
            Self::key_lt(a, b) ==> !Self::key_lt(b, a),
            a != b ==> Self::key_lt(a, b) || Self::key_lt(b, a),
            Self::key_lt(a, b) && Self::key_lt(b, c) ==> Self::key_lt(a, c),
    ;

    fn key_less(&self, other: &Self) -> (r: bool)
        ensures
            r == Self::key_lt(self.key(), other.key()),
    ;
}

/// The keys of a run, in order.
pub open spec fn keys<T: SortedKey>(v: Seq<T>) -> Seq<T::Key> {
    v.map_values(|x: T| x.key())
}

/// A run whose keys strictly ascend.
pub open spec fn strictly_sorted<T: SortedKey>(ks: Seq<T::Key>) -> bool {
    forall|i: int, j: int| 0 <= i < j < ks.len() ==> T::key_lt(#[trigger] ks[i], #[trigger] ks[j])
}

/// Whether the keys of `v` strictly ascend, found by comparing each value
/// with the one before it.
pub fn keys_strictly_sorted<T: SortedKey>(v: &Vec<T>) -> (r: bool)
    ensures
        r == strictly_sorted::<T>(keys(v@)),
{
    let ghost ks = keys(v@);
    let mut i: usize = 1;
    if v.len() == 0 {
        return true;
    }
    while i < v.len()
        invariant
            1 <= i <= v@.len(),
            ks == keys(v@),
            forall|a: int, b: int| 0 <= a < b < i ==> T::key_lt(#[trigger] ks[a], #[trigger] ks[b]),
        decreases v@.len() - i,
    {
        assert(ks[i - 1] == v@[i - 1].key());
        assert(ks[i as int] == v@[i as int].key());
        if !v[i - 1].key_less(&v[i]) {
            return false;
        }
        proof {
            assert forall|a: int, b: int| 0 <= a < b < i + 1 implies T::key_lt(
                #[trigger] ks[a],
                #[trigger] ks[b],
            ) by {
                if b == i && a < i - 1 {
                    T::lemma_key_order(ks[a], ks[i - 1], ks[b]);
                }
            }
        }
        i = i + 1;
    }
    true
}

/// Inserts `x` at its place in a strictly ascending run, unless a value
/// with the same key is already there.
pub fn insert_sorted<T: SortedKey>(v: &mut Vec<T>, x: T)
    requires
        strictly_sorted::<T>(keys(old(v)@)),
    ensures
        strictly_sorted::<T>(keys(final(v)@)),
        forall|k: T::Key| #[trigger]
            keys(final(v)@).contains(k) <==> (keys(old(v)@).contains(k) || k == x.key()),
        keys(old(v)@).contains(x.key()) ==> final(v)@ == old(v)@,
        !keys(old(v)@).contains(x.key()) ==> exists|i: int|
            0 <= i <= old(v)@.len() && final(v)@ == old(v)@.insert(i, x),
{
    let ghost xk = x.key();
    let ghost old_keys = keys(v@);
    let mut i: usize = 0;
    while i < v.len() && v[i].key_less(&x)
        invariant
            i <= v@.len(),
            v@ == old(v)@,
            xk == x.key(),
            old_keys == keys(v@),
            forall|k: int| 0 <= k < i ==> T::key_lt(#[trigger] old_keys[k], xk),
        decreases v@.len() - i,
    {
        assert(old_keys[i as int] == v@[i as int].key());
        i = i + 1;
    }
    proof {
        if i < old_keys.len() {
            assert(old_keys[i as int] == v@[i as int].key());
        }
    }
    if i < v.len() && !x.key_less(&v[i]) {
        proof {
            T::lemma_key_order(old_keys[i as int], xk, xk);
            assert(old_keys[i as int] == xk);
            assert(keys(old(v)@).contains(x.key()));
        }
        return;
    }
    proof {
        if i < old_keys.len() {
            T::lemma_key_order(old_keys[i as int], xk, xk);
            assert(T::key_lt(xk, old_keys[i as int]));
        }
    }
    proof {
        assert forall|k: int| 0 <= k < old_keys.len() implies old_keys[k] != xk by {
            T::lemma_key_order(old_keys[k], xk, xk);
            if k > i {
                T::lemma_key_order(xk, old_keys[i as int], old_keys[k]);
                T::lemma_key_order(xk, xk, xk);
            }
        }
        assert(!old_keys.contains(xk));
    }
    let ghost before = v@;
    v.insert(i, x);
    proof {
        assert(v@ == before.insert(i as int, x));
        let nk = keys(v@);
        assert(nk =~= old_keys.insert(i as int, xk));
        assert forall|a: int, b: int| 0 <= a < b < nk.len() implies T::key_lt(
            #[trigger] nk[a],
            #[trigger] nk[b],
        ) by {
            if b < i {
            } else if b == i {
            } else if a < i {
                T::lemma_key_order(old_keys[a], xk, old_keys[b - 1]);
                if b - 1 > i {
                    T::lemma_key_order(xk, old_keys[i as int], old_keys[b - 1]);
                }
            } else if a == i {
                if b - 1 > i {
                    T::lemma_key_order(xk, old_keys[i as int], old_keys[b - 1]);
                }
            } else {
            }
        }
        assert forall|k: T::Key| #[trigger]
            nk.contains(k) <==> (old_keys.contains(k) || k == xk) by {
            if nk.contains(k) {
                let w = choose|w: int| 0 <= w < nk.len() && nk[w] == k;
                if w < i {
                    assert(old_keys[w] == k);
                } else if w > i {
                    assert(old_keys[w - 1] == k);
                }
            }
            if old_keys.contains(k) {
                let w = choose|w: int| 0 <= w < old_keys.len() && old_keys[w] == k;
                if w < i {
                    assert(nk[w] == k);
                } else {
                    assert(nk[w + 1] == k);
                }
            }
            if k == xk {
                assert(nk[i as int] == k);
            }
        }
    }
}

impl SortedKey for String {
    type Key = Seq<char>;

    open spec fn key(&self) -> Seq<char> {
        self@
    }

    open spec fn key_lt(a: Seq<char>, b: Seq<char>) -> bool {
        text_lt(a, b)
    }

    proof fn lemma_key_order(a: Seq<char>, b: Seq<char>, c: Seq<char>) {
        lemma_text_lt_order(a, b, c);
    }

    fn key_less(&self, other: &Self) -> (r: bool) {
        str_less(self.as_str(), other.as_str())
    }
}

/// Texts and generations order by text, then by generation.
pub open spec fn scoped_key_lt(a: (Seq<char>, i64), b: (Seq<char>, i64)) -> bool {
    text_lt(a.0, b.0) || (a.0 == b.0 && a.1 < b.1)
}

impl SortedKey for (String, i64) {
    type Key = (Seq<char>, i64);

    open spec fn key(&self) -> (Seq<char>, i64) {
        (self.0@, self.1)
    }

    open spec fn key_lt(a: (Seq<char>, i64), b: (Seq<char>, i64)) -> bool {
        scoped_key_lt(a, b)
    }

    proof fn lemma_key_order(a: (Seq<char>, i64), b: (Seq<char>, i64), c: (Seq<char>, i64)) {
        lemma_text_lt_order(a.0, b.0, c.0);
        lemma_text_lt_order(a.0, c.0, b.0);
        lemma_text_lt_order(b.0, a.0, c.0);
    }

    fn key_less(&self, other: &Self) -> (r: bool) {
        if str_less(self.0.as_str(), other.0.as_str()) {
            true
        } else if str_less(other.0.as_str(), self.0.as_str()) {
            proof {
                lemma_text_lt_order(self.0@, other.0@, other.0@);
            }
            false
        } else {
            proof {
                lemma_text_lt_order(self.0@, other.0@, other.0@);
            }
            self.1 < other.1
        }
    }
}

/// The distinct texts of `values`, ascending.
pub fn sorted_unique(values: &Vec<String>) -> (r: Vec<String>)
    ensures
        strictly_sorted::<String>(keys(r@)),
        forall|k: Seq<char>| #[trigger]
            keys(r@).contains(k) <==> exists|i: int| 0 <= i < values@.len() && values@[i]@ == k,
{
    let mut out: Vec<String> = Vec::new();
    let mut i: usize = 0;
    while i < values.len()
        invariant
            i <= values@.len(),
            strictly_sorted::<String>(keys(out@)),
            forall|k: Seq<char>| #[trigger]
                keys(out@).contains(k) <==> exists|j: int| 0 <= j < i && values@[j]@ == k,
        decreases values@.len() - i,
    {
        let item = values[i].clone();
        insert_sorted(&mut out, item);
        proof {
            assert forall|k: Seq<char>| #[trigger]
                keys(out@).contains(k) <==> exists|j: int| 0 <= j < i + 1 && values@[j]@ == k by {
                if exists|j: int| 0 <= j < i + 1 && values@[j]@ == k {
                    let j = choose|j: int| 0 <= j < i + 1 && values@[j]@ == k;
                    if j < i {
                        assert(exists|j: int| 0 <= j < i && values@[j]@ == k);
                    }
                }
            }
        }
        i = i + 1;
    }
    out
}

} // verus!
