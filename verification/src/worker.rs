//! The decisions of the file worker of the asynchronous server: where each
//! appended record lies, which file to write to, and which records a
//! compaction reads from which files.
//!
//! The worker's file handles and its reads and writes live with the caller;
//! the caller reports how many bytes each append wrote and where a newly
//! opened target file ends.
use crate::logfile::{FilePos, LogFileId};
use crate::meta::{MetaFileOpe, MetaFileStore};
use std::collections::HashMap;
use vstd::prelude::*;
use vstd::std_specs::iter::IteratorSpec;

verus! {

broadcast use {vstd::std_specs::hash::group_hash_axioms, vstd::seq_lib::group_to_multiset_ensures};

/// A target file that has grown to this many bytes is compacted.
pub const LOG_FILE_MAX: u64 = 1048576;

/// The offsets of the records in `kv` that lie in file `fid`, in the order of
/// `kv`.
pub open spec fn positions_in(kv: Seq<(String, FilePos)>, fid: u64) -> Seq<u64>
    decreases kv.len(),
{
    if kv.len() == 0 {
        Seq::empty()
    } else {
        let p = positions_in(kv.drop_last(), fid);
        if kv.last().1.file_id == fid {
            p.push(kv.last().1.pos)
        } else {
            p
        }
    }
}

/// `s` is in increasing order.
pub open spec fn sorted(s: Seq<u64>) -> bool {
    forall|i: int, j: int| 0 <= i < j < s.len() ==> s[i] <= s[j]
}

/// Inserts `x` into the sorted `v`, keeping it sorted.
fn insert_sorted(v: &mut Vec<u64>, x: u64)
    requires
        sorted(old(v)@),
    ensures
        sorted(final(v)@),
        final(v)@.to_multiset() == old(v)@.to_multiset().insert(x),
{
    let mut i: usize = 0;
    while i < v.len() && v[i] <= x
        invariant
            i <= v@.len(),
            forall|j: int| 0 <= j < i ==> v@[j] <= x,
        decreases v@.len() - i,
    {
        i = i + 1;
    }
    let ghost v0 = v@;
    v.insert(i, x);
    assert(sorted(v@)) by {
        assert forall|a: int, b: int| 0 <= a < b < v@.len() implies v@[a] <= v@[b] by {
            if b < i {
            } else if b == i {
            } else if a < i {
                assert(v@[a] == v0[a]);
                assert(v@[b] == v0[b - 1]);
                if i < v0.len() {
                    assert(x < v0[i as int]);
                }
            } else if a == i {
                assert(v@[b] == v0[b - 1]);
                assert(x < v0[i as int]);
            } else {
                assert(v@[a] == v0[a - 1]);
                assert(v@[b] == v0[b - 1]);
            }
        }
    }
}

/// The state of a compaction: the copy of the index it works on, the
/// offsets to copy grouped by file, the files it compacts and the files it
/// writes.
pub struct Compactor {
    /// The copy of the index: each key with the position of its record.
    pub kv: Vec<(String, FilePos)>,
    /// For each file, the offsets of the records to copy from it.
    pub kvranked: HashMap<u64, Vec<u64>>,
    /// The files to compact.
    pub disactived_files: HashMap<u64, ()>,
    /// The target file of user writes during the compaction.
    pub curfid: u64,
    /// The files written by the compaction.
    pub compact_to_files: HashMap<u64, ()>,
    /// The file that the compaction writes now.
    pub out_fid: u64,
    /// Where the next copied line starts in that file.
    pub out_pos: u64,
    /// How many bytes the compaction has written to that file.
    pub out_cnt: u64,
    /// The keys copied into that file, with where their lines start.
    pub out_k2off: Vec<(String, usize)>,
}

impl Compactor {
    /// A compaction with nothing to do yet.
    pub fn new() -> (c: Compactor)
        ensures
            c.kv@ == Seq::<(String, FilePos)>::empty(),
            c.kvranked@ == Map::<u64, Vec<u64>>::empty(),
            c.disactived_files@ == Map::<u64, ()>::empty(),
            c.curfid == 0,
            c.compact_to_files@ == Map::<u64, ()>::empty(),
            c.out_fid == 0,
            c.out_pos == 0,
            c.out_cnt == 0,
            c.out_k2off@ == Seq::<(String, usize)>::empty(),
    {
        Compactor {
            kv: Vec::new(),
            kvranked: HashMap::new(),
            disactived_files: HashMap::new(),
            curfid: 0,
            compact_to_files: HashMap::new(),
            out_fid: 0,
            out_pos: 0,
            out_cnt: 0,
            out_k2off: Vec::new(),
        }
    }

    /// The rest of the compaction is as before: the copy of the index, the
    /// grouped offsets, the files to compact and the user's target file.
    pub open spec fn same_input(&self, other: &Compactor) -> bool {
        &&& self.kv@ == other.kv@
        &&& self.kvranked@ == other.kvranked@
        &&& self.disactived_files@ == other.disactived_files@
        &&& self.curfid == other.curfid
    }

    /// Starts writing the compacted records into the file that
    /// `find_compactto_fid` picks, which ends at `endpos`.
    pub fn start_output(&mut self, endpos: u64)
        requires
            old(self).curfid < u64::MAX,
            forall|k: u64| old(self).disactived_files@.contains_key(k) ==> k < u64::MAX,
            forall|k: u64| old(self).kvranked@.contains_key(k) ==> k < u64::MAX,
        ensures
            final(self).same_input(old(self)),
            final(self).compact_to_files@ == old(self).compact_to_files@,
            final(self).out_fid > old(self).curfid,
            forall|k: u64| old(self).disactived_files@.contains_key(k) ==> final(self).out_fid > k,
            forall|k: u64| old(self).kvranked@.contains_key(k) ==> final(self).out_fid > k,
            final(self).out_fid - 1 == old(self).curfid || old(self).disactived_files@.contains_key(
                (final(self).out_fid - 1) as u64,
            ) || old(self).kvranked@.contains_key((final(self).out_fid - 1) as u64),
            final(self).out_pos == endpos,
            final(self).out_cnt == 0,
            final(self).out_k2off@ == Seq::<(String, usize)>::empty(),
    {
        let fid = self.find_compactto_fid();
        self.out_fid = fid.id;
        self.out_pos = endpos;
        self.out_cnt = 0;
        self.out_k2off = Vec::new();
    }

    /// Takes in a copied line of `n` bytes, the record of key `k` (`None`
    /// for a line that sets no key). Returns where the line starts; once the
    /// file has reached `LOG_FILE_MAX` bytes, also returns the file and the
    /// positions of the keys copied into it, which are sent to the index,
    /// records the file as written, and moves on to the next file id.
    pub fn copied(&mut self, k: Option<String>, n: u64) -> (r: (FilePos, Option<(u64, Vec<(String, usize)>)>))
        requires
            old(self).out_pos + n <= u64::MAX,
            old(self).out_cnt + n <= u64::MAX,
            old(self).out_pos <= usize::MAX,
            old(self).out_fid < u64::MAX,
        ensures
            final(self).same_input(old(self)),
            r.0 == (FilePos { file_id: old(self).out_fid, pos: old(self).out_pos }),
            ({
                let recorded = match k {
                    Some(k) => old(self).out_k2off@.push((k, old(self).out_pos as usize)),
                    None => old(self).out_k2off@,
                };
                if old(self).out_cnt + n >= LOG_FILE_MAX {
                    &&& r.1 matches Some((f, v)) && f == old(self).out_fid && v@ == recorded
                    &&& final(self).compact_to_files@ == old(self).compact_to_files@.insert(old(self).out_fid, ())
                    &&& final(self).out_fid == old(self).out_fid + 1
                    &&& final(self).out_pos == 0
                    &&& final(self).out_cnt == 0
                    &&& final(self).out_k2off@ == Seq::<(String, usize)>::empty()
                } else {
                    &&& r.1 is None
                    &&& final(self).compact_to_files@ == old(self).compact_to_files@
                    &&& final(self).out_fid == old(self).out_fid
                    &&& final(self).out_pos == old(self).out_pos + n
                    &&& final(self).out_cnt == old(self).out_cnt + n
                    &&& final(self).out_k2off@ == recorded
                }
            }),
    {
        let start = self.out_pos;
        let p = FilePos { file_id: self.out_fid, pos: start };
        if let Some(k) = k {
            self.out_k2off.push((k, start as usize));
        }
        self.out_pos = self.out_pos + n;
        self.out_cnt = self.out_cnt + n;
        if self.out_cnt >= LOG_FILE_MAX {
            let fid = self.out_fid;
            let mut batch: Vec<(String, usize)> = Vec::new();
            std::mem::swap(&mut batch, &mut self.out_k2off);
            self.compact_to_files.insert(fid, ());
            self.out_fid = fid + 1;
            self.out_pos = 0;
            self.out_cnt = 0;
            (p, Some((fid, batch)))
        } else {
            (p, None)
        }
    }

    /// The file now written was opened and ends at `endpos`.
    pub fn output_opened(&mut self, endpos: u64)
        ensures
            final(self).same_input(old(self)),
            final(self).compact_to_files@ == old(self).compact_to_files@,
            final(self).out_fid == old(self).out_fid,
            final(self).out_pos == endpos,
            final(self).out_cnt == old(self).out_cnt,
            final(self).out_k2off@ == old(self).out_k2off@,
    {
        self.out_pos = endpos;
    }

    /// All records are copied: records the last file as written and returns
    /// it with the positions of the keys copied into it.
    pub fn finish_output(&mut self) -> (r: (u64, Vec<(String, usize)>))
        ensures
            final(self).same_input(old(self)),
            r.0 == old(self).out_fid,
            r.1@ == old(self).out_k2off@,
            final(self).compact_to_files@ == old(self).compact_to_files@.insert(old(self).out_fid, ()),
            final(self).out_fid == old(self).out_fid,
            final(self).out_k2off@ == Seq::<(String, usize)>::empty(),
    {
        let mut batch: Vec<(String, usize)> = Vec::new();
        std::mem::swap(&mut batch, &mut self.out_k2off);
        self.compact_to_files.insert(self.out_fid, ());
        (self.out_fid, batch)
    }

    /// The files that the compaction read, other than the files it wrote and
    /// the target file of user writes, which are removed once their records
    /// are copied.
    pub fn files_to_remove(&self) -> (r: Vec<u64>)
        ensures
            r@.to_set() == self.kvranked@.dom().difference(self.compact_to_files@.dom()).remove(self.curfid),
            !r@.contains(self.curfid),
    {
        let mut r: Vec<u64> = Vec::new();
        let ghost ks = self.kvranked.keys().remaining();
        for fid in it: self.kvranked.keys()
            invariant
                it.seq() == ks,
                ks.unref().to_set() == self.kvranked@.dom(),
                forall|x: u64| #[trigger] r@.contains(x) <==> exists|j: int|
                    0 <= j < it.index() && *ks[j] == x && !self.compact_to_files@.contains_key(x) && x != self.curfid,
        {
            let ghost i = it.index();
            let ghost r0 = r@;
            if !self.compact_to_files.contains_key(fid) && *fid != self.curfid {
                r.push(*fid);
            }
            proof {
                assert forall|x: u64| #[trigger] r@.contains(x) <==> exists|j: int|
                    0 <= j < i + 1 && *ks[j] == x && !self.compact_to_files@.contains_key(x) && x != self.curfid by {
                    if r@.contains(x) {
                        if r0.contains(x) {
                            let j = choose|j: int| 0 <= j < i && *ks[j] == x && !self.compact_to_files@.contains_key(x) && x != self.curfid;
                            assert(0 <= j < i + 1 && *ks[j] == x);
                        } else {
                            let j = choose|j: int| 0 <= j < r@.len() && r@[j] == x;
                            assert(j == r0.len());
                            assert(*ks[i] == x);
                        }
                    }
                    if exists|j: int| 0 <= j < i + 1 && *ks[j] == x && !self.compact_to_files@.contains_key(x) && x != self.curfid {
                        let j = choose|j: int| 0 <= j < i + 1 && *ks[j] == x && !self.compact_to_files@.contains_key(x) && x != self.curfid;
                        if j < i {
                            assert(r0.contains(x));
                            let m = choose|m: int| 0 <= m < r0.len() && r0[m] == x;
                            assert(r@[m] == x);
                        } else {
                            assert(r@[r@.len() - 1] == x);
                        }
                    }
                }
            }
        }
        proof {
            assert forall|x: u64| r@.to_set().contains(x) <==> self.kvranked@.dom().difference(self.compact_to_files@.dom()).remove(self.curfid).contains(x) by {
                if self.kvranked@.dom().contains(x) {
                    assert(ks.unref().to_set().contains(x));
                    let j = choose|j: int| 0 <= j < ks.len() && ks.unref()[j] == x;
                    assert(*ks[j] == x);
                }
                if r@.contains(x) {
                    let j = choose|j: int| 0 <= j < ks.len() && *ks[j] == x && !self.compact_to_files@.contains_key(x) && x != self.curfid;
                    assert(ks.unref()[j] == x);
                    assert(ks.unref().to_set().contains(x));
                }
            }
            assert(r@.to_set() =~= self.kvranked@.dom().difference(self.compact_to_files@.dom()).remove(self.curfid));
        }
        r
    }

    /// The compaction is over: the files it wrote are the files it holds as
    /// the next ones to compact.
    pub fn end_output(&mut self)
        ensures
            final(self).disactived_files@ == old(self).compact_to_files@,
            final(self).compact_to_files@ == old(self).disactived_files@,
    {
        std::mem::swap(&mut self.compact_to_files, &mut self.disactived_files);
    }

    /// Whether a target file that has grown to `curpos` bytes is compacted.
    pub fn if_need_compact(curpos: u64) -> (r: bool)
        ensures
            r == (curpos >= LOG_FILE_MAX),
    {
        curpos >= LOG_FILE_MAX
    }

    /// The largest of `m` and the keys of `files`.
    fn max_key<V>(files: &HashMap<u64, V>, m: u64) -> (r: u64)
        ensures
            r >= m,
            forall|k: u64| files@.contains_key(k) ==> r >= k,
            r == m || files@.contains_key(r),
    {
        let mut max: u64 = m;
        let ghost ks = files.keys().remaining();
        for fid in it: files.keys()
            invariant
                max >= m,
                it.seq() == ks,
                ks.unref().to_set() == files@.dom(),
                forall|j: int| 0 <= j < it.index() ==> max >= *ks[j],
                max == m || files@.contains_key(max),
        {
            if *fid > max {
                max = *fid;
                proof {
                    assert(ks.unref().to_set().contains(max));
                }
            }
        }
        proof {
            assert forall|k: u64| files@.contains_key(k) implies max >= k by {
                assert(ks.unref().to_set().contains(k));
            }
        }
        max
    }

    /// The file to compact into: one past the largest id among the target
    /// file of user writes, the files to compact and the files whose records
    /// are copied, so it is none of them.
    pub fn find_compactto_fid(&self) -> (r: LogFileId)
        requires
            self.curfid < u64::MAX,
            forall|k: u64| self.disactived_files@.contains_key(k) ==> k < u64::MAX,
            forall|k: u64| self.kvranked@.contains_key(k) ==> k < u64::MAX,
        ensures
            r.id > self.curfid,
            forall|k: u64| self.disactived_files@.contains_key(k) ==> r.id > k,
            forall|k: u64| self.kvranked@.contains_key(k) ==> r.id > k,
            r.id - 1 == self.curfid || self.disactived_files@.contains_key((r.id - 1) as u64)
                || self.kvranked@.contains_key((r.id - 1) as u64),
    {
        let m1 = Self::max_key(&self.disactived_files, self.curfid);
        let m2 = Self::max_key(&self.kvranked, m1);
        LogFileId { id: m2 + 1 }
    }

    /// Groups the records of `kv` by file: for each file that holds one, the
    /// offsets of its records in increasing order.
    pub fn calc_kvranked(&mut self)
        ensures
            forall|fid: u64| #[trigger] final(self).kvranked@.contains_key(fid) <==> positions_in(old(self).kv@, fid).len() > 0,
            forall|fid: u64| #[trigger] final(self).kvranked@.contains_key(fid) ==> sorted(final(self).kvranked@[fid]@)
                && final(self).kvranked@[fid]@.to_multiset() == positions_in(old(self).kv@, fid).to_multiset(),
            final(self).kv@ == old(self).kv@,
            final(self).disactived_files@ == old(self).disactived_files@,
            final(self).curfid == old(self).curfid,
            final(self).compact_to_files@ == old(self).compact_to_files@,
    {
        let mut rank: HashMap<u64, Vec<u64>> = HashMap::new();
        let mut i: usize = 0;
        while i < self.kv.len()
            invariant
                i <= self.kv@.len(),
                self.kv@ == old(self).kv@,
                forall|fid: u64| #[trigger] rank@.contains_key(fid) <==> positions_in(self.kv@.take(i as int), fid).len() > 0,
                forall|fid: u64| #[trigger] rank@.contains_key(fid) ==> sorted(rank@[fid]@)
                    && rank@[fid]@.to_multiset() == positions_in(self.kv@.take(i as int), fid).to_multiset(),
            decreases self.kv@.len() - i,
        {
            let ghost pre = self.kv@.take(i as int);
            let ghost cur = self.kv@.take(i + 1);
            assert(cur.drop_last() =~= pre);
            let fp = self.kv[i].1;
            match rank.remove(&fp.file_id) {
                Some(v) => {
                    let mut v = v;
                    insert_sorted(&mut v, fp.pos);
                    rank.insert(fp.file_id, v);
                },
                None => {
                    let mut v: Vec<u64> = Vec::new();
                    assert(positions_in(pre, fp.file_id) =~= Seq::<u64>::empty());
                    insert_sorted(&mut v, fp.pos);
                    rank.insert(fp.file_id, v);
                },
            }
            assert forall|fid: u64| #[trigger] rank@.contains_key(fid) <==> positions_in(cur, fid).len() > 0 by {
                if fid != fp.file_id {
                    assert(positions_in(cur, fid) == positions_in(pre, fid));
                }
            }
            i = i + 1;
        }
        assert(self.kv@.take(i as int) =~= self.kv@);
        self.kvranked = rank;
    }
}

/// The worker's record of the files to compact.
pub struct PaKvFileWorker {
    pub disactived_files: HashMap<u64, ()>,
}

impl PaKvFileWorker {
    /// No file to compact yet.
    pub fn new() -> (w: PaKvFileWorker)
        ensures
            w.disactived_files@ == Map::<u64, ()>::empty(),
    {
        PaKvFileWorker { disactived_files: HashMap::new() }
    }

    /// Records the log files found in the store folder as files to compact.
    pub fn pre_collect_dir(&mut self, fids: &Vec<u64>)
        ensures
            forall|k: u64| #[trigger] final(self).disactived_files@.contains_key(k) <==> old(self).disactived_files@.contains_key(k) || fids@.contains(k),
    {
        let mut i: usize = 0;
        while i < fids.len()
            invariant
                i <= fids@.len(),
                forall|k: u64| #[trigger] self.disactived_files@.contains_key(k) <==> old(self).disactived_files@.contains_key(k) || fids@.take(i as int).contains(k),
            decreases fids@.len() - i,
        {
            let ghost pre = fids@.take(i as int);
            self.disactived_files.insert(fids[i], ());
            assert forall|k: u64| fids@.take(i + 1).contains(k) <==> pre.contains(k) || k == fids@[i as int] by {
                assert(fids@.take(i + 1) =~= pre.push(fids@[i as int]));
                if k == fids@[i as int] {
                    assert(fids@.take(i + 1)[i as int] == k);
                }
            }
            i = i + 1;
        }
        assert(fids@.take(i as int) =~= fids@);
    }

    /// A file that becomes the target of writes is no longer one to compact.
    pub fn tarfile_chosen(&mut self, tarfid: LogFileId)
        ensures
            final(self).disactived_files@ == old(self).disactived_files@.remove(tarfid.id),
    {
        self.disactived_files.remove(&tarfid.id);
    }

    /// After a compaction, the files it wrote are the files to compact next
    /// time; the compaction keeps the earlier record.
    pub fn finish_compaction(&mut self, comp: &mut Compactor)
        ensures
            final(self).disactived_files@ == old(comp).disactived_files@,
            final(comp).disactived_files@ == old(self).disactived_files@,
    {
        std::mem::swap(&mut comp.disactived_files, &mut self.disactived_files);
    }
}

/// Where the worker writes: the target file and its current length.
pub struct CurFileStates {
    pub curpos: u64,
    pub fid: LogFileId,
    pub metafile_ope: MetaFileOpe,
}

impl CurFileStates {
    /// No target file yet.
    pub fn new() -> (s: CurFileStates)
        ensures
            s.curpos == 0,
            s.fid.id == 0,
            s.metafile_ope.store is None,
    {
        CurFileStates { curpos: 0, fid: LogFileId { id: 0 }, metafile_ope: MetaFileOpe::create() }
    }

    /// `tarfid`, which ends at `endpos`, becomes the target file and the
    /// meta record; returns the meta record to persist.
    pub fn tarfileset(&mut self, tarfid: LogFileId, endpos: u64) -> (persist: MetaFileStore)
        ensures
            final(self).curpos == endpos,
            final(self).fid == tarfid,
            final(self).metafile_ope.store == Some(persist),
            persist.usertarfid == tarfid.id,
    {
        self.curpos = endpos;
        let persist = self.metafile_ope.set_usertar_fid(tarfid.id);
        self.fid = tarfid;
        persist
    }

    /// Takes in an append of `written` bytes to the target file; returns where
    /// the appended record starts.
    pub fn appended(&mut self, written: u64) -> (p: FilePos)
        requires
            old(self).curpos + written <= u64::MAX,
        ensures
            p == (FilePos { file_id: old(self).fid.id, pos: old(self).curpos }),
            final(self).curpos == old(self).curpos + written,
            final(self).fid == old(self).fid,
            final(self).metafile_ope.store == old(self).metafile_ope.store,
    {
        let p = FilePos { file_id: self.fid.id, pos: self.curpos };
        self.curpos = self.curpos + written;
        p
    }

    /// Starts a compaction: writes move on to the next file id, which the
    /// compaction leaves alone. Returns the compaction and the new target.
    pub fn begin_compaction(&self) -> (r: (Compactor, LogFileId))
        requires
            self.fid.id < u64::MAX,
        ensures
            r.1.id == self.fid.id + 1,
            r.0.curfid == r.1.id,
            r.0.kv@ == Seq::<(String, FilePos)>::empty(),
            r.0.kvranked@ == Map::<u64, Vec<u64>>::empty(),
            r.0.disactived_files@ == Map::<u64, ()>::empty(),
            r.0.compact_to_files@ == Map::<u64, ()>::empty(),
    {
        let mut comp = Compactor::new();
        let mut fid = self.fid;
        comp.curfid = fid.id + 1;
        fid.id = fid.id + 1;
        (comp, fid)
    }
}

} // verus!
