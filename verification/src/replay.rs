//! Rebuilding a map from the log of writes that produced it.
//!
//! A write either maps a key to a value or removes the key. Applying the
//! writes of a log in order, starting from the empty map, gives back, for every
//! key, the value of the last write to it, unless that write removed it.
use vstd::prelude::*;

verus! {

/// One write: the key, and the new value or `None` for a removal.
pub type Write<V> = (Seq<char>, Option<V>);

/// `m` after the write `w`.
pub open spec fn apply_write<V>(m: Map<Seq<char>, V>, w: Write<V>) -> Map<Seq<char>, V> {
    match w.1 {
        Some(v) => m.insert(w.0, v),
        None => m.remove(w.0),
    }
}

/// `m` after the writes `ws`, first to last.
pub open spec fn replay_writes<V>(m: Map<Seq<char>, V>, ws: Seq<Write<V>>) -> Map<Seq<char>, V>
    decreases ws.len(),
{
    if ws.len() == 0 {
        m
    } else {
        apply_write(replay_writes(m, ws.drop_last()), ws.last())
    }
}

/// The last write to `k` in `ws`, if there is one: `Some(Some(v))` when it
/// wrote `v`, `Some(None)` when it removed `k`.
pub open spec fn last_write<V>(ws: Seq<Write<V>>, k: Seq<char>) -> Option<Option<V>>
    decreases ws.len(),
{
    if ws.len() == 0 {
        None
    } else if ws.last().0 == k {
        Some(ws.last().1)
    } else {
        last_write(ws.drop_last(), k)
    }
}

/// After replaying a log from the empty map, a key has a value exactly when
/// its last write set one, and the value is the one that write set.
pub proof fn lemma_replay_gives_last_write<V>(ws: Seq<Write<V>>, k: Seq<char>)
    ensures
        replay_writes(Map::<Seq<char>, V>::empty(), ws).contains_key(k) <==> (last_write(ws, k) matches Some(Some(_))),
        last_write(ws, k) matches Some(Some(v)) ==> replay_writes(Map::<Seq<char>, V>::empty(), ws)[k] == v,
    decreases ws.len(),
{
    if ws.len() > 0 {
        lemma_replay_gives_last_write(ws.drop_last(), k);
    }
}

/// Replaying two logs one after the other is replaying their concatenation.
pub proof fn lemma_replay_append<V>(m: Map<Seq<char>, V>, ws1: Seq<Write<V>>, ws2: Seq<Write<V>>)
    ensures
        replay_writes(replay_writes(m, ws1), ws2) == replay_writes(m, ws1 + ws2),
    decreases ws2.len(),
{
    if ws2.len() > 0 {
        lemma_replay_append(m, ws1, ws2.drop_last());
        assert((ws1 + ws2).drop_last() =~= ws1 + ws2.drop_last());
        assert((ws1 + ws2).last() == ws2.last());
    } else {
        assert(ws1 + ws2 =~= ws1);
    }
}


/// Replaying writes onto any map: a key that no write touches keeps its
/// value, and a key takes the value of its last write (or is gone if that
/// write removed it).
pub proof fn lemma_replay_last<V>(m: Map<Seq<char>, V>, ws: Seq<Write<V>>, k: Seq<char>)
    ensures
        (forall|i: int| 0 <= i < ws.len() ==> #[trigger] ws[i].0 != k) ==> {
            &&& replay_writes(m, ws).contains_key(k) == m.contains_key(k)
            &&& m.contains_key(k) ==> replay_writes(m, ws)[k] == m[k]
        },
        forall|i: int|
            0 <= i < ws.len() && #[trigger] ws[i].0 == k && (forall|j: int| i < j < ws.len() ==> ws[j].0 != k) ==> match ws[i].1 {
                Some(v) => replay_writes(m, ws).contains_key(k) && replay_writes(m, ws)[k] == v,
                None => !replay_writes(m, ws).contains_key(k),
            },
    decreases ws.len(),
{
    if ws.len() > 0 {
        let d = ws.drop_last();
        lemma_replay_last(m, d, k);
        let n = ws.len() - 1;
        assert forall|i: int| 0 <= i < d.len() implies #[trigger] d[i] == ws[i] by {}
        if forall|i: int| 0 <= i < ws.len() ==> #[trigger] ws[i].0 != k {
            assert forall|i: int| 0 <= i < d.len() implies #[trigger] d[i].0 != k by {
                assert(ws[i].0 != k);
            }
        }
        assert forall|i: int|
            0 <= i < ws.len() && #[trigger] ws[i].0 == k && (forall|j: int| i < j < ws.len() ==> ws[j].0 != k) implies match ws[i].1 {
                Some(v) => replay_writes(m, ws).contains_key(k) && replay_writes(m, ws)[k] == v,
                None => !replay_writes(m, ws).contains_key(k),
            } by {
            if i < n {
                assert(ws[n].0 != k);
                assert(d[i].0 == k);
                assert forall|j: int| i < j < d.len() implies d[j].0 != k by {
                    assert(ws[j].0 != k);
                }
            }
        }
    }
}

} // verus!
