//! The kernel of the asynchronous server.
//!
//! The kernel keeps the index in memory. File work is done by a worker: the
//! kernel hands it tasks (`WRWorkerTask`), each tagged with a fresh operation
//! id, and takes in the worker's reports (`KernelWorker2Main`), which it turns
//! into results for the requester of that id (`KernelToAppMsg`).
use crate::logfile::{FilePos, LogFileId};
use crate::meta::{MetaFileOpe, MetaFileStore};
use vstd::hash_set::StringHashSet;
use vstd::prelude::*;

pub use crate::index::KVStore;

verus! {

/// The id of an operation handed to the file worker.
pub type PaKVOpeId = u64;

/// A report of the file worker to the kernel.
#[derive(Debug)]
pub enum KernelWorker2Main {
    /// The set record of `k` was appended at `pos`.
    AfterSetAppend { opeid: PaKVOpeId, k: String, pos: FilePos },
    /// The value read for a get.
    AfterGetRead { opeid: PaKVOpeId, v: String },
    /// The delete record of `k` was appended.
    AfterDelAppend { opeid: PaKVOpeId, k: String },
    /// The worker asks for a copy of the index (the reply is sent by the
    /// caller, from `KVStore::snapshot`).
    GetKVHashClone,
    /// Records of the keys `k2off` now lie at the given offsets of file
    /// `fileid`.
    BunchUpdate { fileid: u64, k2off: Vec<(String, usize)> },
}

/// The result of an operation, for its requester.
#[derive(Debug)]
pub enum PaKvOpeResult {
    SetResult {  },
    DelResult { succ: bool },
    GetResult { v: Option<String> },
}

/// A result together with the id of the operation it belongs to.
pub struct KernelToAppMsg {
    pub opeid: PaKVOpeId,
    pub res: PaKvOpeResult,
}

/// A task for the file worker.
#[derive(Debug)]
pub enum WRWorkerTask {
    SetAppend { opeid: PaKVOpeId, k: String, v: String },
    DelAppend { opeid: PaKVOpeId, k: String },
    GetRead { opeid: PaKVOpeId, pos: FilePos },
    TarFileSet { tarfid: LogFileId },
}

/// `m` after the worker's report that the records of `es` (key and offset)
/// now lie in file `fid`.
pub open spec fn apply_moves(m: Map<Seq<char>, FilePos>, fid: u64, es: Seq<(String, usize)>) -> Map<Seq<char>, FilePos>
    decreases es.len(),
{
    if es.len() == 0 {
        m
    } else {
        apply_moves(m, fid, es.drop_last()).insert(es.last().0@, FilePos { file_id: fid, pos: es.last().1 as u64 })
    }
}

/// After a compaction reports that the records of `es` now lie in file
/// `fid`: each reported key points at the offset of its last report in
/// `fid`, and every key not reported keeps its position.
pub proof fn lemma_moves_last(m: Map<Seq<char>, FilePos>, fid: u64, es: Seq<(String, usize)>)
    ensures
        forall|i: int|
            0 <= i < es.len() && (forall|j: int| i < j < es.len() ==> #[trigger] es[j].0@ != es[i].0@)
                ==> apply_moves(m, fid, es).contains_key(#[trigger] es[i].0@)
                && apply_moves(m, fid, es)[es[i].0@] == (FilePos { file_id: fid, pos: es[i].1 as u64 }),
        forall|k: Seq<char>|
            #![trigger apply_moves(m, fid, es).contains_key(k)]
            #![trigger m.contains_key(k)]
            (forall|i: int| 0 <= i < es.len() ==> #[trigger] es[i].0@ != k) ==> (
                apply_moves(m, fid, es).contains_key(k) == m.contains_key(k)
                && (m.contains_key(k) ==> apply_moves(m, fid, es)[k] == m[k])),
    decreases es.len(),
{
    if es.len() > 0 {
        let d = es.drop_last();
        let n = es.len() - 1;
        lemma_moves_last(m, fid, d);
        assert forall|i: int|
            0 <= i < es.len() && (forall|j: int| i < j < es.len() ==> #[trigger] es[j].0@ != es[i].0@)
                implies apply_moves(m, fid, es).contains_key(#[trigger] es[i].0@)
                && apply_moves(m, fid, es)[es[i].0@] == (FilePos { file_id: fid, pos: es[i].1 as u64 }) by {
            if i < n {
                assert(d[i] == es[i]);
                assert(es[n].0@ != es[i].0@);
                assert forall|j: int| i < j < d.len() implies #[trigger] d[j].0@ != d[i].0@ by {
                    assert(d[j] == es[j]);
                    assert(es[j].0@ != es[i].0@);
                }
            }
        }
        assert forall|k: Seq<char>|
            #![trigger apply_moves(m, fid, es).contains_key(k)]
            #![trigger m.contains_key(k)]
            (forall|i: int| 0 <= i < es.len() ==> #[trigger] es[i].0@ != k) implies (
                apply_moves(m, fid, es).contains_key(k) == m.contains_key(k)
                && (m.contains_key(k) ==> apply_moves(m, fid, es)[k] == m[k])) by {
            assert(es[n].0@ != k);
            assert forall|i: int| 0 <= i < d.len() implies #[trigger] d[i].0@ != k by {
                assert(d[i] == es[i]);
                assert(es[i].0@ != k);
            }
        }
    }
}

/// The kernel state.
pub struct PaKVCtx {
    pub store: KVStore<FilePos>,
    pub tarfid: LogFileId,
    pub compacting: bool,
    pub user_opek_whencompact: StringHashSet,
    pub meta_file_ope: MetaFileOpe,
    /// The id that the next operation gets.
    pub opeid: PaKVOpeId,
}

impl PaKVCtx {
    /// The id that the next operation gets.
    pub open spec fn next_opeid(&self) -> PaKVOpeId {
        self.opeid
    }

    /// The kernel holds a well-formed index.
    pub open spec fn wf(&self) -> bool {
        self.store.wf()
    }

    /// An empty kernel writing to file 1; operation ids start at 0.
    pub fn create() -> (c: PaKVCtx)
        ensures
            c.wf(),
            c.store@ == Map::<Seq<char>, FilePos>::empty(),
            c.tarfid.id == 1,
            !c.compacting,
            c.user_opek_whencompact@ == Set::<Seq<char>>::empty(),
            c.meta_file_ope.store is None,
            c.next_opeid() == 0,
    {
        PaKVCtx {
            store: KVStore::create(),
            tarfid: LogFileId { id: 1 },
            compacting: false,
            user_opek_whencompact: StringHashSet::new(),
            meta_file_ope: MetaFileOpe::create(),
            opeid: 0,
        }
    }

    /// Hands out the next operation id.
    fn get_opeid(&mut self) -> (id: PaKVOpeId)
        requires
            old(self).opeid < u64::MAX,
        ensures
            id == old(self).opeid,
            final(self).opeid == old(self).opeid + 1,
            final(self).store == old(self).store,
            final(self).tarfid == old(self).tarfid,
            final(self).compacting == old(self).compacting,
            final(self).user_opek_whencompact == old(self).user_opek_whencompact,
            final(self).meta_file_ope == old(self).meta_file_ope,
    {
        let ret = self.opeid;
        self.opeid = self.opeid + 1;
        ret
    }

    /// Starts a set of `k` to `v`: the task for the worker, tagged with a
    /// fresh id, which is returned too. The index changes once the worker
    /// reports the append.
    pub fn set(&mut self, k: String, v: String) -> (r: (PaKVOpeId, WRWorkerTask))
        requires
            old(self).wf(),
            old(self).next_opeid() < u64::MAX,
        ensures
            final(self).wf(),
            r.0 == old(self).next_opeid(),
            final(self).next_opeid() == old(self).next_opeid() + 1,
            r.1 == (WRWorkerTask::SetAppend { opeid: r.0, k, v }),
            final(self).store@ == old(self).store@,
    {
        let opeid = self.get_opeid();
        (opeid, WRWorkerTask::SetAppend { opeid, k, v })
    }

    /// Starts a delete of `k`; see `set`.
    pub fn del(&mut self, k: String) -> (r: (PaKVOpeId, WRWorkerTask))
        requires
            old(self).wf(),
            old(self).next_opeid() < u64::MAX,
        ensures
            final(self).wf(),
            r.0 == old(self).next_opeid(),
            final(self).next_opeid() == old(self).next_opeid() + 1,
            r.1 == (WRWorkerTask::DelAppend { opeid: r.0, k }),
            final(self).store@ == old(self).store@,
    {
        let opeid = self.get_opeid();
        (opeid, WRWorkerTask::DelAppend { opeid, k })
    }

    /// Starts a get of `k`: when `k` is in the index, the task to read its
    /// record, tagged with a fresh id; otherwise nothing (and no id is used).
    pub fn get(&mut self, k: String) -> (r: Option<(PaKVOpeId, WRWorkerTask)>)
        requires
            old(self).wf(),
            old(self).next_opeid() < u64::MAX,
        ensures
            final(self).wf(),
            final(self).store@ == old(self).store@,
            match r {
                Some((id, task)) => {
                    &&& old(self).store@.contains_key(k@)
                    &&& id == old(self).next_opeid()
                    &&& final(self).next_opeid() == old(self).next_opeid() + 1
                    &&& task == WRWorkerTask::GetRead { opeid: id, pos: old(self).store@[k@] }
                },
                None => !old(self).store@.contains_key(k@) && final(self).next_opeid() == old(self).next_opeid(),
            },
    {
        let r = self.store.get(&k);
        if let Some(pos) = r {
            let pos = *pos;
            let opeid = self.get_opeid();
            return Some((opeid, WRWorkerTask::GetRead { opeid, pos }));
        }
        None
    }

    /// Takes in a report of the worker: updates the index after a set or a
    /// delete was appended, or after a compaction moved records, and returns
    /// the result for the requester of the operation, if the report
    /// completes one.
    pub fn consume_selfmsg(&mut self, selfmsg: KernelWorker2Main) -> (r: Option<KernelToAppMsg>)
        requires
            old(self).wf(),
            selfmsg matches KernelWorker2Main::BunchUpdate { k2off, .. } ==> forall|i: int|
                0 <= i < k2off@.len() ==> #[trigger] old(self).store@.contains_key(k2off@[i].0@),
        ensures
            final(self).wf(),
            final(self).next_opeid() == old(self).next_opeid(),
            final(self).tarfid == old(self).tarfid,
            match selfmsg {
                KernelWorker2Main::AfterSetAppend { opeid, k, pos } => {
                    &&& final(self).store@ == old(self).store@.insert(k@, pos)
                    &&& r == Some(KernelToAppMsg { opeid, res: PaKvOpeResult::SetResult {  } })
                },
                KernelWorker2Main::AfterGetRead { opeid, v } => {
                    &&& final(self).store@ == old(self).store@
                    &&& r == Some(KernelToAppMsg { opeid, res: PaKvOpeResult::GetResult { v: Some(v) } })
                },
                KernelWorker2Main::AfterDelAppend { opeid, k } => {
                    &&& final(self).store@ == old(self).store@.remove(k@)
                    &&& r == Some(KernelToAppMsg { opeid, res: PaKvOpeResult::DelResult { succ: old(self).store@.contains_key(k@) } })
                },
                KernelWorker2Main::GetKVHashClone => {
                    &&& final(self).store@ == old(self).store@
                    &&& r is None
                },
                KernelWorker2Main::BunchUpdate { fileid, k2off } => {
                    &&& final(self).store@ == apply_moves(old(self).store@, fileid, k2off@)
                    &&& r is None
                    &&& forall|i: int|
                        0 <= i < k2off@.len() && (forall|j: int| i < j < k2off@.len() ==> #[trigger] k2off@[j].0@ != k2off@[i].0@)
                            ==> final(self).store@.contains_key(#[trigger] k2off@[i].0@)
                            && final(self).store@[k2off@[i].0@] == (FilePos { file_id: fileid, pos: k2off@[i].1 as u64 })
                    &&& forall|k: Seq<char>|
                        #![trigger final(self).store@.contains_key(k)]
                        #![trigger old(self).store@.contains_key(k)]
                        (forall|i: int| 0 <= i < k2off@.len() ==> #[trigger] k2off@[i].0@ != k) ==> (
                            final(self).store@.contains_key(k) == old(self).store@.contains_key(k)
                            && (old(self).store@.contains_key(k) ==> final(self).store@[k] == old(self).store@[k]))
                },
            },
    {
        match selfmsg {
            KernelWorker2Main::AfterSetAppend { opeid, k, pos } => {
                self.store.set(k, &pos);
                return Some(KernelToAppMsg { opeid, res: PaKvOpeResult::SetResult {  } });
            },
            KernelWorker2Main::AfterGetRead { opeid, v } => {
                return Some(KernelToAppMsg { opeid, res: PaKvOpeResult::GetResult { v: Some(v) } });
            },
            KernelWorker2Main::AfterDelAppend { opeid, k } => {
                let r = self.store.del(&k);
                return Some(KernelToAppMsg { opeid, res: PaKvOpeResult::DelResult { succ: r.is_some() } });
            },
            KernelWorker2Main::GetKVHashClone => {
                None
            },
            KernelWorker2Main::BunchUpdate { fileid, k2off } => {
                let ghost m0 = self.store@;
                let mut i: usize = 0;
                while i < k2off.len()
                    invariant
                        self.wf(),
                        i <= k2off@.len(),
                        self.store@ == apply_moves(m0, fileid, k2off@.take(i as int)),
                        forall|j: int| 0 <= j < k2off@.len() ==> #[trigger] m0.contains_key(k2off@[j].0@),
                        self.opeid == old(self).opeid,
                        self.tarfid == old(self).tarfid,
                    decreases k2off@.len() - i,
                {
                    assert(k2off@.take(i + 1).drop_last() =~= k2off@.take(i as int));
                    let k = &k2off[i].0;
                    let off = k2off[i].1;
                    self.store.set(k.clone(), &FilePos { file_id: fileid, pos: off as u64 });
                    i = i + 1;
                }
                assert(k2off@.take(i as int) =~= k2off@);
                proof {
                    lemma_moves_last(m0, fileid, k2off@);
                }
                None
            },
        }
    }
}

/// A message for the client: the framed bytes to send.
#[derive(Debug)]
pub struct Server2ClientMsg {
    pub serilized_vec: Vec<u8>,
}

impl Server2ClientMsg {
    /// Wraps framed bytes.
    pub fn new(vec: Vec<u8>) -> (m: Server2ClientMsg)
        ensures
            m.serilized_vec@ == vec@,
    {
        Server2ClientMsg { serilized_vec: vec }
    }
}

/// A message from the connection to the client's user interface.
#[derive(Debug)]
pub enum Conn2AppMsg {
    End,
    Common { print2user: String },
}

/// A command line for the connection to send.
#[derive(Debug)]
pub struct App2ConnMsg {
    pub vec: String,
}

impl App2ConnMsg {
    /// Wraps a command line.
    pub fn new(vec: String) -> (m: App2ConnMsg)
        ensures
            m.vec@ == vec@,
    {
        App2ConnMsg { vec }
    }
}

} // verus!
