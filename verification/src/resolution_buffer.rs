//! Buffered resolution writes. A resolver records one operation per key
//! (an upsert carrying its payload, or a demotion) and the buffer
//! collapses them before they are written: each key keeps the last
//! operation recorded for it, in ascending key order. Recording then
//! demoting a key writes a delete; demoting then recording writes an
//! upsert; the order in which different keys were recorded never matters.

use vstd::prelude::*;

use crate::sorted::{insert_sorted, keys, strictly_sorted, SortedKey};
use crate::text::{lemma_text_lt_order, str_less, text_lt};

verus! {

/// One buffered operation on a key.
#[derive(Debug, Clone, PartialEq)]
pub enum BufferedOp<U> {
    Upsert(U),
    Demote,
}

/// An operation with the key it applies to.
#[derive(Debug, Clone, PartialEq)]
pub struct KeyedOp<U> {
    pub key: String,
    pub op: BufferedOp<U>,
}

impl<U> SortedKey for KeyedOp<U> {
    type Key = Seq<char>;

    open spec fn key(&self) -> Seq<char> {
        self.key@
    }

    open spec fn key_lt(a: Seq<char>, b: Seq<char>) -> bool {
        text_lt(a, b)
    }

    proof fn lemma_key_order(a: Seq<char>, b: Seq<char>, c: Seq<char>) {
        lemma_text_lt_order(a, b, c);
    }

    fn key_less(&self, other: &Self) -> (r: bool) {
        str_less(self.key.as_str(), other.key.as_str())
    }
}

/// The last operation recorded for key `k`, if any.
pub open spec fn last_op<U>(ops: Seq<KeyedOp<U>>, k: Seq<char>) -> Option<BufferedOp<U>>
    decreases ops.len(),
{
    if ops.len() == 0 {
        None
    } else if ops.last().key@ == k {
        Some(ops.last().op)
    } else {
        last_op(ops.drop_last(), k)
    }
}

/// Some operation at index `from` or later is recorded for key `k`.
pub open spec fn recorded_from<U>(ops: Seq<KeyedOp<U>>, k: Seq<char>, from: int) -> bool {
    exists|j: int| from <= j < ops.len() && (#[trigger] ops[j]).key@ == k
}

/// A collapse of `ops`: ascending keys, each key recorded in `ops` once,
/// with its last operation.
pub open spec fn collapse_of<U>(ops: Seq<KeyedOp<U>>, out: Seq<KeyedOp<U>>) -> bool {
    &&& strictly_sorted::<KeyedOp<U>>(keys(out))
    &&& forall|k: Seq<char>| #[trigger] keys(out).contains(k) <==> last_op(ops, k) is Some
    &&& forall|i: int| 0 <= i < out.len() ==> last_op(ops, (#[trigger] out[i]).key@) == Some(out[i].op)
}

/// The operations recorded so far, in the order recorded.
#[derive(Debug, Clone)]
pub struct WriteBuffer<U> {
    ops: Vec<KeyedOp<U>>,
}

impl<U> WriteBuffer<U> {
    /// The operations recorded, in order.
    pub closed spec fn recorded(&self) -> Seq<KeyedOp<U>> {
        self.ops@
    }

    /// An empty buffer.
    pub fn new() -> (r: Self)
        ensures
            r.recorded() == Seq::<KeyedOp<U>>::empty(),
    {
        WriteBuffer { ops: Vec::new() }
    }

    /// Whether nothing is recorded.
    pub fn is_empty(&self) -> (r: bool)
        ensures
            r == (self.recorded().len() == 0),
    {
        self.ops.len() == 0
    }

    /// Records `op` for `key` after everything recorded so far.
    pub fn record(&mut self, key: String, op: BufferedOp<U>)
        ensures
            final(self).recorded() == old(self).recorded().push(KeyedOp { key, op }),
    {
        self.ops.push(KeyedOp { key, op });
    }

    /// The recorded operations collapsed to the last one per key, in
    /// ascending key order; the buffer is consumed.
    pub fn collapse(self) -> (r: Vec<KeyedOp<U>>)
        ensures
            collapse_of(self.recorded(), r@),
    {
        let ghost all = self.ops@;
        let mut rest = self.ops;
        let mut out: Vec<KeyedOp<U>> = Vec::new();
        while rest.len() > 0
            invariant
                rest@ == all.take(rest@.len() as int),
                rest@.len() <= all.len(),
                strictly_sorted::<KeyedOp<U>>(keys(out@)),
                forall|k: Seq<char>| #[trigger]
                    keys(out@).contains(k) <==> recorded_from(all, k, rest@.len() as int),
                forall|i: int|
                    0 <= i < out@.len() ==> last_op(all, (#[trigger] out@[i]).key@) == Some(out@[i].op),
            decreases rest@.len(),
        {
            let ghost m = (rest@.len() - 1) as int;
            let x = rest.pop().unwrap();
            proof {
                assert(x == all[m]);
                assert(rest@ =~= all.take(m));
            }
            let ghost before = out@;
            let ghost fresh = !keys(before).contains(x.key@);
            proof {
                if fresh {
                    assert forall|j: int| m < j < all.len() implies (#[trigger] all[j]).key@ != x.key@ by {
                        if all[j].key@ == x.key@ {
                            assert(recorded_from(all, x.key@, m + 1));
                        }
                    }
                    lemma_last_op_at(all, m);
                }
            }
            insert_sorted(&mut out, x);
            proof {
                assert forall|k: Seq<char>| #[trigger]
                    keys(out@).contains(k) <==> recorded_from(all, k, m) by {
                    if recorded_from(all, k, m) {
                        let j = choose|j: int| m <= j < all.len() && (#[trigger] all[j]).key@ == k;
                        if j > m {
                            assert(recorded_from(all, k, m + 1));
                        }
                    }
                    if recorded_from(all, k, m + 1) {
                        let j = choose|j: int| m + 1 <= j < all.len() && (#[trigger] all[j]).key@ == k;
                        assert(m <= j);
                    }
                }
                if !fresh {
                    assert(out@ == before);
                } else {
                    let p = choose|p: int| 0 <= p <= before.len() && out@ == before.insert(p, x);
                    assert forall|i: int| 0 <= i < out@.len() implies last_op(all, (#[trigger] out@[i]).key@)
                        == Some(out@[i].op) by {
                        if i < p {
                            assert(out@[i] == before[i]);
                        } else if i > p {
                            assert(out@[i] == before[i - 1]);
                        }
                    }
                }
            }
        }
        proof {
            assert forall|k: Seq<char>| #[trigger] keys(out@).contains(k) <==> last_op(all, k) is Some by {
                if last_op(all, k) is Some {
                    lemma_last_op_recorded(all, k);
                }
                if recorded_from(all, k, 0) {
                    let j = choose|j: int| 0 <= j < all.len() && (#[trigger] all[j]).key@ == k;
                    lemma_last_op_some(all, k, j);
                }
            }
        }
        out
    }
}

/// The last operation for the key at index `m`, when no later operation
/// names that key, is the one at `m`.
proof fn lemma_last_op_at<U>(ops: Seq<KeyedOp<U>>, m: int)
    requires
        0 <= m < ops.len(),
        forall|j: int| m < j < ops.len() ==> (#[trigger] ops[j]).key@ != ops[m].key@,
    ensures
        last_op(ops, ops[m].key@) == Some(ops[m].op),
    decreases ops.len(),
{
    if m < ops.len() - 1 {
        let front = ops.drop_last();
        assert(ops[ops.len() - 1].key@ != ops[m].key@);
        assert forall|j: int| m < j < front.len() implies (#[trigger] front[j]).key@ != front[m].key@ by {
            assert(front[j] == ops[j]);
        }
        lemma_last_op_at(front, m);
    }
}

/// A key with a last operation was recorded.
proof fn lemma_last_op_recorded<U>(ops: Seq<KeyedOp<U>>, k: Seq<char>)
    requires
        last_op(ops, k) is Some,
    ensures
        recorded_from(ops, k, 0),
    decreases ops.len(),
{
    if ops.last().key@ == k {
        assert(ops[ops.len() - 1].key@ == k);
    } else {
        lemma_last_op_recorded(ops.drop_last(), k);
        let j = choose|j: int| 0 <= j < ops.drop_last().len() && (#[trigger] ops.drop_last()[j]).key@ == k;
        assert(ops[j] == ops.drop_last()[j]);
    }
}

/// A key recorded at some index has a last operation.
proof fn lemma_last_op_some<U>(ops: Seq<KeyedOp<U>>, k: Seq<char>, j: int)
    requires
        0 <= j < ops.len(),
        ops[j].key@ == k,
    ensures
        last_op(ops, k) is Some,
    decreases ops.len(),
{
    if ops.last().key@ != k {
        assert(j < ops.len() - 1);
        assert(ops.drop_last()[j] == ops[j]);
        lemma_last_op_some(ops.drop_last(), k, j);
    }
}

/// Law: the operation recorded last for a key is the one the key keeps,
/// and recording for one key leaves every other key's last operation as
/// it was. Recording then demoting a key leaves a demotion; demoting then
/// recording leaves the upsert.
pub proof fn lemma_last_record_wins<U>(ops: Seq<KeyedOp<U>>, x: KeyedOp<U>, k: Seq<char>)
    ensures
        last_op(ops.push(x), x.key@) == Some(x.op),
        k != x.key@ ==> last_op(ops.push(x), k) == last_op(ops, k),
{
    assert(ops.push(x).drop_last() =~= ops);
}

/// Law: the relative order in which two different keys were recorded
/// does not matter: exchanging two neighbouring operations on different
/// keys leaves every key's last operation as it was.
pub proof fn lemma_other_keys_commute<U>(ops: Seq<KeyedOp<U>>, i: int, k: Seq<char>)
    requires
        0 <= i,
        i + 1 < ops.len(),
        ops[i].key@ != ops[i + 1].key@,
    ensures
        last_op(ops.update(i, ops[i + 1]).update(i + 1, ops[i]), k) == last_op(ops, k),
    decreases ops.len(),
{
    let swapped = ops.update(i, ops[i + 1]).update(i + 1, ops[i]);
    let n = ops.len();
    if i + 1 == n - 1 {
        let rest = ops.drop_last().drop_last();
        assert(swapped.drop_last().drop_last() =~= rest);
        assert(swapped.last() == ops[i]);
        assert(swapped.drop_last().last() == ops[i + 1]);
        assert(ops.drop_last().last() == ops[i]);
    } else {
        assert(swapped.last() == ops.last());
        let front = ops.drop_last();
        assert(swapped.drop_last() =~= front.update(i, front[i + 1]).update(i + 1, front[i]));
        lemma_other_keys_commute(front, i, k);
    }
}

} // verus!
