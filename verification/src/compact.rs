//! Choosing the ids of the log files that a compaction writes.
//!
//! A compaction reads the log files `compactfrom_fids`, while user writes go
//! to the target file `tarfid`; it writes the surviving records to fresh files
//! `compact2_fids`, whose ids must collide with none of the others.
use crate::index::KVStore;
use crate::logfile::LogFileId;
use crate::replay::apply_write;
use crate::serial::{KvOpe, KvOpeE, OpeView};
use vstd::prelude::*;

verus! {

/// The largest of `floor` and the ids in `fids`.
pub open spec fn max_id(fids: Seq<LogFileId>, floor: int) -> int
    decreases fids.len(),
{
    if fids.len() == 0 {
        floor
    } else {
        let m = max_id(fids.drop_last(), floor);
        if fids.last().id > m {
            fids.last().id as int
        } else {
            m
        }
    }
}

/// `max_id` is at least `floor` and every id, and is `floor` or one of them.
pub proof fn lemma_max_id(fids: Seq<LogFileId>, floor: int)
    ensures
        max_id(fids, floor) >= floor,
        forall|i: int| 0 <= i < fids.len() ==> max_id(fids, floor) >= #[trigger] fids[i].id,
        max_id(fids, floor) == floor || exists|i: int| 0 <= i < fids.len() && max_id(fids, floor) == #[trigger] fids[i].id,
    decreases fids.len(),
{
    if fids.len() > 0 {
        let d = fids.drop_last();
        lemma_max_id(d, floor);
        assert forall|i: int| 0 <= i < fids.len() implies max_id(fids, floor) >= #[trigger] fids[i].id by {
            if i < fids.len() - 1 {
                assert(fids[i] == d[i]);
            }
        }
        if max_id(fids, floor) != floor && max_id(fids, floor) != fids.last().id {
            let j = choose|j: int| 0 <= j < d.len() && max_id(d, floor) == #[trigger] d[j].id;
            assert(fids[j] == d[j]);
        }
    }
}

/// The largest id of `fids`, or `floor` when it is larger.
fn max_fid(fids: &Vec<LogFileId>, floor: u64) -> (m: u64)
    ensures
        m == max_id(fids@, floor as int),
{
    let mut max = floor;
    let mut i: usize = 0;
    while i < fids.len()
        invariant
            i <= fids@.len(),
            max == max_id(fids@.take(i as int), floor as int),
        decreases fids@.len() - i,
    {
        assert(fids@.take(i + 1).drop_last() =~= fids@.take(i as int));
        if fids[i].id > max {
            max = fids[i].id;
        }
        i = i + 1;
    }
    assert(fids@.take(i as int) =~= fids@);
    max
}

/// A compaction in progress: the files it reads, the files it has written,
/// and the target file of user writes during it.
pub struct CompactCtx {
    pub compactfrom_fids: Vec<LogFileId>,
    pub compact2_fids: Vec<LogFileId>,
    pub tarfid: LogFileId,
}

impl CompactCtx {
    /// A compaction of the files `compactfrom`. User writes go to a new
    /// target file whose id is one past the largest of 1 and their ids.
    pub fn create(compactfrom: Vec<LogFileId>) -> (c: CompactCtx)
        requires
            max_id(compactfrom@, 1) < u64::MAX,
        ensures
            c.compactfrom_fids@ == compactfrom@,
            c.compact2_fids@ == Seq::<LogFileId>::empty(),
            c.tarfid.id == max_id(compactfrom@, 1) + 1,
    {
        let max = max_fid(&compactfrom, 1);
        CompactCtx { compactfrom_fids: compactfrom, compact2_fids: Vec::new(), tarfid: LogFileId { id: max + 1 } }
    }

    /// The largest id in use by this compaction: of the files it reads, of
    /// the files it wrote, and of the target file.
    pub open spec fn max_used(&self) -> int {
        let m = max_id(self.compact2_fids@, max_id(self.compactfrom_fids@, 0));
        if self.tarfid.id > m {
            self.tarfid.id as int
        } else {
            m
        }
    }

    /// Picks the id of the next file to write, one past every id in use,
    /// records it among the written files, and returns it (the caller
    /// creates the file).
    pub fn add_new_compact2_fid(&mut self) -> (add: LogFileId)
        requires
            old(self).max_used() < u64::MAX,
        ensures
            add.id == old(self).max_used() + 1,
            final(self).compact2_fids@ == old(self).compact2_fids@.push(add),
            final(self).compactfrom_fids@ == old(self).compactfrom_fids@,
            final(self).tarfid == old(self).tarfid,
    {
        let m0 = max_fid(&self.compactfrom_fids, 0);
        let mut max = max_fid(&self.compact2_fids, m0);
        if self.tarfid.id > max {
            max = self.tarfid.id;
        }
        let add = LogFileId { id: max + 1 };
        self.compact2_fids.push(add);
        add
    }
}

/// For each key, the log line of its latest set, as read from the files being
/// compacted; a delete drops the key.
pub struct LatestLines {
    index: KVStore<usize>,
    lines: Vec<String>,
}

/// The write that the log line `line`, holding `op`, makes to the collected
/// lines.
pub open spec fn line_write(line: Seq<char>, op: OpeView) -> (Seq<char>, Option<Seq<char>>) {
    match op {
        OpeView::Put { k, .. } => (k, Some(line)),
        OpeView::Remove { k } => (k, None),
    }
}

impl View for LatestLines {
    type V = Map<Seq<char>, Seq<char>>;

    closed spec fn view(&self) -> Map<Seq<char>, Seq<char>> {
        self.index@.map_values(|i: usize| self.lines@[i as int]@)
    }
}

impl LatestLines {
    /// The index points into the kept lines.
    pub closed spec fn wf(&self) -> bool {
        &&& self.index.wf()
        &&& forall|k: Seq<char>| #[trigger] self.index@.contains_key(k) ==> self.index@[k] < self.lines@.len()
        &&& forall|k1: Seq<char>, k2: Seq<char>|
            #[trigger] self.index@.contains_key(k1) && #[trigger] self.index@.contains_key(k2) && k1 != k2
                ==> self.index@[k1] != self.index@[k2]
    }

    /// Nothing collected.
    pub fn new() -> (l: LatestLines)
        ensures
            l.wf(),
            l@ == Map::<Seq<char>, Seq<char>>::empty(),
    {
        let l = LatestLines { index: KVStore::create(), lines: Vec::new() };
        assert(l@ =~= Map::<Seq<char>, Seq<char>>::empty());
        l
    }

    /// Takes in the log line `line`, which holds `ope`: a set keeps the line
    /// as its key's latest, a delete drops the key.
    pub fn record(&mut self, line: &String, ope: &KvOpe)
        requires
            old(self).wf(),
        ensures
            final(self).wf(),
            final(self)@ == apply_write(old(self)@, line_write(line@, ope@)),
    {
        match &ope.ope {
            KvOpeE::KvOpeSet { k, v: _ } => {
                match self.index.get(k) {
                    Some(i) => {
                        let i = *i;
                        self.lines.set(i, line.clone());
                        assert(self.index@.contains_key(k@));
                    },
                    None => {
                        let i = self.lines.len();
                        self.lines.push(line.clone());
                        self.index.set(k.clone(), &i);
                    },
                }
                assert(self@ =~= old(self)@.insert(k@, line@)) by {
                    assert forall|k2: Seq<char>| #[trigger] self@.contains_key(k2) && k2 != k@ implies self@[k2] == old(self)@[k2] by {
                        assert(old(self).index@.contains_key(k2));
                        if self.index@[k2] == self.index@[k@] {
                            assert(self.index@.contains_key(k2));
                        }
                    }
                }
            },
            KvOpeE::KvOpeDel { k } => {
                self.index.del(k);
                assert(self@ =~= old(self)@.remove(k@));
            },
        }
    }

    /// The collected lines, each key once with its latest line.
    pub fn entries(&self) -> (r: Vec<(String, String)>)
        requires
            self.wf(),
        ensures
            forall|i: int| 0 <= i < r@.len() ==> #[trigger] self@.contains_key(r@[i].0@) && self@[r@[i].0@] == r@[i].1@,
            forall|i: int, j: int| 0 <= i < j < r@.len() ==> r@[i].0@ != r@[j].0@,
            forall|k: Seq<char>| #[trigger] self@.contains_key(k) ==> exists|i: int| 0 <= i < r@.len() && r@[i].0@ == k,
    {
        let snap = self.index.snapshot();
        let mut r: Vec<(String, String)> = Vec::new();
        let mut i: usize = 0;
        while i < snap.len()
            invariant
                self.wf(),
                i <= snap@.len(),
                r@.len() == i,
                forall|j: int| 0 <= j < snap@.len() ==> #[trigger] self.index@.contains_key(snap@[j].0@)
                    && self.index@[snap@[j].0@] == snap@[j].1,
                forall|j: int| 0 <= j < i ==> #[trigger] r@[j].0@ == snap@[j].0@ && r@[j].1@ == self@[snap@[j].0@],
            decreases snap@.len() - i,
        {
            let idx = snap[i].1;
            assert(self.index@.contains_key(snap@[i as int].0@));
            let line = self.lines[idx].clone();
            assert(self@[snap@[i as int].0@] == self.lines@[idx as int]@);
            r.push((snap[i].0.clone(), line));
            assert(r@[i as int].1@ == self@[snap@[i as int].0@]);
            i = i + 1;
        }
        proof {
            assert forall|k: Seq<char>| #[trigger] self@.contains_key(k) implies exists|j: int| 0 <= j < r@.len() && r@[j].0@ == k by {
                assert(self.index@.contains_key(k));
                let j = choose|j: int| 0 <= j < snap@.len() && snap@[j].0@ == k;
                assert(r@[j].0@ == k);
            }
        }
        r
    }
}

/// The writes that the log lines `lines`, each with the record it holds,
/// make to the collected lines.
pub open spec fn line_writes(lines: Seq<(String, KvOpe)>) -> Seq<(Seq<char>, Option<Seq<char>>)> {
    lines.map_values(|e: (String, KvOpe)| line_write(e.0@, e.1@))
}

/// Collects, from the log lines of the files to compact (in file order),
/// each key's latest set line; see `lemma_collect_keeps_last_set`.
pub fn collect_latest_lines(lines: &Vec<(String, KvOpe)>) -> (l: LatestLines)
    ensures
        l.wf(),
        l@ == crate::replay::replay_writes(Map::<Seq<char>, Seq<char>>::empty(), line_writes(lines@)),
{
    let mut l = LatestLines::new();
    let mut i: usize = 0;
    while i < lines.len()
        invariant
            l.wf(),
            i <= lines@.len(),
            l@ == crate::replay::replay_writes(Map::<Seq<char>, Seq<char>>::empty(), line_writes(lines@.take(i as int))),
        decreases lines@.len() - i,
    {
        l.record(&lines[i].0, &lines[i].1);
        assert(line_writes(lines@.take(i + 1)).drop_last() =~= line_writes(lines@.take(i as int)));
        i = i + 1;
    }
    assert(lines@.take(i as int) =~= lines@);
    l
}

/// A compaction keeps, for each key, exactly the line of its last set, and
/// drops a key whose last record deletes it.
pub proof fn lemma_collect_keeps_last_set(lines: Seq<(String, KvOpe)>, k: Seq<char>)
    ensures
        crate::replay::replay_writes(Map::<Seq<char>, Seq<char>>::empty(), line_writes(lines)).contains_key(k)
            <==> (crate::replay::last_write(line_writes(lines), k) matches Some(Some(_))),
        crate::replay::last_write(line_writes(lines), k) matches Some(Some(line))
            ==> crate::replay::replay_writes(Map::<Seq<char>, Seq<char>>::empty(), line_writes(lines))[k] == line,
{
    crate::replay::lemma_replay_gives_last_write(line_writes(lines), k);
}

/// The bookkeeping of writing the collected lines into compaction files:
/// how much the current file holds, and the positions recorded for it.
pub struct CompactWriter {
    pub len: usize,
    pub map_k2pos: Vec<(String, u64)>,
}

impl CompactWriter {
    /// Nothing written yet.
    pub fn new() -> (w: CompactWriter)
        ensures
            w.len == 0,
            w.map_k2pos@ == Seq::<(String, u64)>::empty(),
    {
        CompactWriter { len: 0, map_k2pos: Vec::new() }
    }

    /// Takes in a line of `n` bytes written for key `k`, and records for `k`
    /// the position where the line starts. When the file has grown past the
    /// maximum size, returns the recorded positions, which are sent to the
    /// index, and starts a new file.
    pub fn wrote(&mut self, k: String, n: usize, max: usize) -> (batch: Option<Vec<(String, u64)>>)
        requires
            old(self).len + n <= usize::MAX,
        ensures
            ({
                let len1 = old(self).len + n;
                let recorded = old(self).map_k2pos@.push((k, old(self).len as u64));
                if len1 > max {
                    &&& batch matches Some(b) && b@ == recorded
                    &&& final(self).len == 0
                    &&& final(self).map_k2pos@ == Seq::<(String, u64)>::empty()
                } else {
                    &&& batch is None
                    &&& final(self).len == len1
                    &&& final(self).map_k2pos@ == recorded
                }
            }),
    {
        let start = self.len as u64;
        self.len = self.len + n;
        self.map_k2pos.push((k, start));
        if self.len > max {
            let mut sendmap: Vec<(String, u64)> = Vec::new();
            std::mem::swap(&mut sendmap, &mut self.map_k2pos);
            self.len = 0;
            Some(sendmap)
        } else {
            None
        }
    }

    /// All lines are written: returns the positions recorded for the last
    /// file, which are sent to the index before the old files are removed.
    pub fn finish(&mut self) -> (batch: Vec<(String, u64)>)
        ensures
            batch@ == old(self).map_k2pos@,
            final(self).len == 0,
            final(self).map_k2pos@ == Seq::<(String, u64)>::empty(),
    {
        let mut sendmap: Vec<(String, u64)> = Vec::new();
        std::mem::swap(&mut sendmap, &mut self.map_k2pos);
        self.len = 0;
        sendmap
    }
}

/// A file id picked for compaction output is new: it differs from every file
/// the compaction reads, every file it already wrote, and the target file.
pub proof fn lemma_new_compact_fid_is_fresh(c: CompactCtx, add: LogFileId)
    requires
        add.id == c.max_used() + 1,
    ensures
        add != c.tarfid,
        forall|i: int| 0 <= i < c.compactfrom_fids@.len() ==> add != #[trigger] c.compactfrom_fids@[i],
        forall|i: int| 0 <= i < c.compact2_fids@.len() ==> add != #[trigger] c.compact2_fids@[i],
{
    let m0 = max_id(c.compactfrom_fids@, 0);
    lemma_max_id(c.compactfrom_fids@, 0);
    lemma_max_id(c.compact2_fids@, m0);
}

/// The target file chosen for user writes when a compaction starts is new:
/// it differs from every file the compaction reads.
pub proof fn lemma_compaction_target_is_fresh(compactfrom: Seq<LogFileId>, tarfid: LogFileId)
    requires
        tarfid.id == max_id(compactfrom, 1) + 1,
    ensures
        forall|i: int| 0 <= i < compactfrom.len() ==> tarfid != #[trigger] compactfrom[i],
{
    lemma_max_id(compactfrom, 1);
}

} // verus!
