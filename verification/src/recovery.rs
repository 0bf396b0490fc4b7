//! Recovery at start-up: in which order the log files are read back into the
//! index, and which file becomes the target of writes.
//!
//! Files are read from the least to the most recently modified, except the
//! target file named by the meta record, which holds the newest writes and is
//! read last.
use vstd::prelude::*;

verus! {

/// What recovery does, given the meta record and the files on disk.
pub struct RecoveryPlan {
    /// The files to read back, in this order.
    pub replay: Vec<u64>,
    /// The target file of writes from now on.
    pub tarfid: u64,
    /// Whether the meta record must be updated to `tarfid`.
    pub set_meta: bool,
    /// Whether the file `tarfid` must be created.
    pub touch: bool,
}

/// `ids` without the entries equal to `t`, in order.
pub open spec fn without(ids: Seq<u64>, t: u64) -> Seq<u64>
    decreases ids.len(),
{
    if ids.len() == 0 {
        Seq::empty()
    } else {
        let w = without(ids.drop_last(), t);
        if ids.last() == t {
            w
        } else {
            w.push(ids.last())
        }
    }
}

/// The last entry of `ids` other than `t`, or 0 if there is none.
pub open spec fn latest_other(ids: Seq<u64>, t: u64) -> u64 {
    let w = without(ids, t);
    if w.len() == 0 {
        0
    } else {
        w.last()
    }
}

/// Plans recovery from the meta record's target `tarfid` and the ids of the
/// log files, ordered from least to most recently modified.
///
/// Every file other than the target is read in that order. If the target is
/// among the files, it is read last and stays the target. Otherwise the most
/// recently modified other file becomes the target (and the meta record is
/// updated), unless that file has id 0 or there is none, in which case file 1
/// becomes the target and is created.
pub fn file_check(tarfid: u64, ids_by_time: &Vec<u64>) -> (plan: RecoveryPlan)
    ensures
        ids_by_time@.contains(tarfid) ==> {
            &&& plan.replay@ == without(ids_by_time@, tarfid).push(tarfid)
            &&& plan.tarfid == tarfid
            &&& !plan.set_meta && !plan.touch
        },
        !ids_by_time@.contains(tarfid) ==> {
            &&& plan.replay@ == without(ids_by_time@, tarfid)
            &&& latest_other(ids_by_time@, tarfid) != 0 ==> plan.tarfid == latest_other(ids_by_time@, tarfid)
                && plan.set_meta && !plan.touch
            &&& latest_other(ids_by_time@, tarfid) == 0 ==> plan.tarfid == 1 && !plan.set_meta && plan.touch
        },
{
    let mut replay: Vec<u64> = Vec::new();
    let mut found = false;
    let mut latest_fid: u64 = 0;
    let mut i: usize = 0;
    while i < ids_by_time.len()
        invariant
            i <= ids_by_time@.len(),
            replay@ == without(ids_by_time@.take(i as int), tarfid),
            found == ids_by_time@.take(i as int).contains(tarfid),
            latest_fid == latest_other(ids_by_time@.take(i as int), tarfid),
        decreases ids_by_time@.len() - i,
    {
        let ghost pre = ids_by_time@.take(i as int);
        assert(ids_by_time@.take(i + 1) =~= pre.push(ids_by_time@[i as int]));
        assert(ids_by_time@.take(i + 1).drop_last() =~= pre);
        let id = ids_by_time[i];
        if id == tarfid {
            found = true;
        } else {
            replay.push(id);
            latest_fid = id;
        }
        assert(found == ids_by_time@.take(i + 1).contains(tarfid)) by {
            if pre.contains(tarfid) {
                let j = choose|j: int| 0 <= j < pre.len() && pre[j] == tarfid;
                assert(ids_by_time@.take(i + 1)[j] == tarfid);
            }
            let cur = ids_by_time@.take(i + 1);
            if ids_by_time@[i as int] == tarfid {
                assert(cur[i as int] == tarfid);
            }
            if cur.contains(tarfid) {
                let j = choose|j: int| 0 <= j < cur.len() && cur[j] == tarfid;
                if j < i {
                    assert(pre[j] == tarfid);
                }
            }
        }
        i = i + 1;
    }
    assert(ids_by_time@.take(i as int) =~= ids_by_time@);
    if found {
        replay.push(tarfid);
        RecoveryPlan { replay, tarfid, set_meta: false, touch: false }
    } else if latest_fid != 0 {
        RecoveryPlan { replay, tarfid: latest_fid, set_meta: true, touch: false }
    } else {
        RecoveryPlan { replay, tarfid: 1, set_meta: false, touch: true }
    }
}

/// The target file named by the meta record is read back after every other
/// file, so its records, the newest, decide the index.
pub proof fn lemma_target_replayed_last(ids: Seq<u64>, t: u64, replay: Seq<u64>)
    requires
        ids.contains(t),
        replay == without(ids, t).push(t),
    ensures
        replay.last() == t,
        forall|i: int| 0 <= i < replay.len() - 1 ==> replay[i] != t,
{
    lemma_without_excludes(ids, t);
}

/// `without(ids, t)` holds no `t`.
pub proof fn lemma_without_excludes(ids: Seq<u64>, t: u64)
    ensures
        forall|i: int| 0 <= i < without(ids, t).len() ==> without(ids, t)[i] != t,
    decreases ids.len(),
{
    if ids.len() > 0 {
        lemma_without_excludes(ids.drop_last(), t);
        let w = without(ids.drop_last(), t);
        assert forall|i: int| 0 <= i < without(ids, t).len() implies without(ids, t)[i] != t by {
            if ids.last() != t && i == w.len() {
            } else {
                assert(without(ids, t)[i] == w[i]);
            }
        }
    }
}

} // verus!
