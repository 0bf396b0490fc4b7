use pakv::compact::{collect_latest_lines, CompactCtx, CompactWriter, LatestLines};
use pakv::index::{file_readlogs, KVStore};
use pakv::kernel::{should_pause, CompressAction, CompressBook, CopyStep, KVIndexStore, LogOffsets, PaKVCtxLock};
use pakv::logfile::{get_folder_path, pathstr_of_logfile, FilePos, LogFileId};
use pakv::meta::{MetaFileOpe, MetaFileStore};
use pakv::recovery::file_check;
use pakv::serial::{KvOpe, KvOpeE};

fn set(k: &str, v: &str) -> KvOpe {
    KvOpe::create(KvOpeE::KvOpeSet { k: k.to_string(), v: v.to_string() })
}

fn del(k: &str) -> KvOpe {
    KvOpe::create(KvOpeE::KvOpeDel { k: k.to_string() })
}

#[test]
fn index_set_get_del() {
    let mut s: KVStore<FilePos> = KVStore::create();
    s.set("a".to_string(), &FilePos { file_id: 1, pos: 0 });
    s.set("b".to_string(), &FilePos { file_id: 1, pos: 10 });
    s.set("a".to_string(), &FilePos { file_id: 2, pos: 5 });
    assert_eq!(s.get(&"a".to_string()), Some(&FilePos { file_id: 2, pos: 5 }));
    assert_eq!(s.del(&"a".to_string()), Some(FilePos { file_id: 2, pos: 5 }));
    assert_eq!(s.get(&"a".to_string()), None);
    assert_eq!(s.del(&"a".to_string()), None);
    assert_eq!(s.get(&"b".to_string()), Some(&FilePos { file_id: 1, pos: 10 }));
}

#[test]
fn index_snapshot_lists_each_key_once() {
    let mut s: KVStore<FilePos> = KVStore::create();
    for i in 0..20u64 {
        s.set(format!("k{}", i), &FilePos { file_id: 1, pos: i });
    }
    for i in 0..20u64 {
        if i % 3 == 0 {
            s.del(&format!("k{}", i));
        }
    }
    s.set("k1".to_string(), &FilePos { file_id: 9, pos: 9 });
    let mut snap = s.snapshot();
    snap.sort_by(|a, b| a.0.cmp(&b.0));
    let mut exp: Vec<(String, FilePos)> = (0..20u64)
        .filter(|i| i % 3 != 0)
        .map(|i| (format!("k{}", i), if i == 1 { FilePos { file_id: 9, pos: 9 } } else { FilePos { file_id: 1, pos: i } }))
        .collect();
    exp.sort_by(|a, b| a.0.cmp(&b.0));
    assert_eq!(snap, exp);
}

#[test]
fn recovery_points_each_key_at_its_last_set() {
    let mut s: KVStore<FilePos> = KVStore::create();
    let f1 = vec![(0u64, set("a", "1")), (20, set("b", "2")), (40, set("a", "3"))];
    let f2 = vec![(0u64, del("b")), (15, set("c", "4"))];
    file_readlogs(&mut s, 1, &f1);
    file_readlogs(&mut s, 2, &f2);
    assert_eq!(s.get(&"a".to_string()), Some(&FilePos { file_id: 1, pos: 40 }));
    assert_eq!(s.get(&"b".to_string()), None);
    assert_eq!(s.get(&"c".to_string()), Some(&FilePos { file_id: 2, pos: 15 }));
}

#[test]
fn recovery_plan_reads_target_last() {
    let p = file_check(3, &vec![5, 3, 7]);
    assert_eq!(p.replay, vec![5, 7, 3]);
    assert_eq!(p.tarfid, 3);
    assert!(!p.set_meta && !p.touch);
}

#[test]
fn recovery_plan_without_target_takes_latest() {
    let p = file_check(9, &vec![5, 3, 7]);
    assert_eq!(p.replay, vec![5, 3, 7]);
    assert_eq!(p.tarfid, 7);
    assert!(p.set_meta && !p.touch);
}

#[test]
fn recovery_plan_on_empty_store_creates_file_one() {
    let p = file_check(1, &vec![]);
    assert_eq!(p.replay, Vec::<u64>::new());
    assert_eq!(p.tarfid, 1);
    assert!(!p.set_meta && p.touch);
}

#[test]
fn compaction_ids_are_fresh() {
    let mut c = CompactCtx::create(vec![LogFileId { id: 2 }, LogFileId { id: 5 }]);
    assert_eq!(c.tarfid.id, 6);
    let a = c.add_new_compact2_fid();
    assert_eq!(a.id, 7);
    let b = c.add_new_compact2_fid();
    assert_eq!(b.id, 8);
    assert_eq!(c.compact2_fids, vec![LogFileId { id: 7 }, LogFileId { id: 8 }]);
    let c0 = CompactCtx::create(vec![]);
    assert_eq!(c0.tarfid.id, 2);
}

#[test]
fn latest_lines_keep_the_last_set_of_each_key() {
    let mut l = LatestLines::new();
    l.record(&"L1".to_string(), &set("a", "1"));
    l.record(&"L2".to_string(), &set("b", "2"));
    l.record(&"L3".to_string(), &set("a", "3"));
    l.record(&"L4".to_string(), &del("b"));
    l.record(&"L5".to_string(), &set("c", "5"));
    let mut e = l.entries();
    e.sort();
    assert_eq!(e, vec![("a".to_string(), "L3".to_string()), ("c".to_string(), "L5".to_string())]);
}

#[test]
fn collected_lines_are_the_last_sets() {
    let lines = vec![
        ("L1".to_string(), set("x", "1")),
        ("L2".to_string(), del("x")),
        ("L3".to_string(), set("y", "2")),
        ("L4".to_string(), set("y", "3")),
        ("L5".to_string(), del("z")),
    ];
    let mut e = collect_latest_lines(&lines).entries();
    e.sort();
    assert_eq!(e, vec![("y".to_string(), "L4".to_string())]);
}

#[test]
fn compact_writer_batches_by_file_size() {
    let mut w = CompactWriter::new();
    assert_eq!(w.wrote("a".to_string(), 6, 10), None);
    let b = w.wrote("b".to_string(), 6, 10).unwrap();
    assert_eq!(b, vec![("a".to_string(), 0), ("b".to_string(), 6)]);
    assert_eq!(w.len, 0);
    assert!(w.map_k2pos.is_empty());
    assert_eq!(w.wrote("c".to_string(), 4, 10), None);
    assert_eq!(w.finish(), vec![("c".to_string(), 0)]);
    assert_eq!(w.len, 0);
}

#[test]
fn file_names_give_ids() {
    assert_eq!(LogFileId::from_path("12.kv"), Some(LogFileId { id: 12 }));
    assert_eq!(LogFileId::from_path("+7.kv"), Some(LogFileId { id: 7 }));
    assert_eq!(LogFileId::from_path("3.kv.old"), Some(LogFileId { id: 3 }));
    assert_eq!(LogFileId::from_path("abc.kv"), None);
    assert_eq!(LogFileId::from_path(".kv"), None);
    assert_eq!(LogFileId::from_path("meta"), None);
    assert_eq!(LogFileId::from_path("18446744073709551615.kv"), Some(LogFileId { id: u64::MAX }));
    assert_eq!(LogFileId::from_path("18446744073709551616.kv"), None);
    let mut f = LogFileId { id: 0 };
    assert!(f.set_by_logfile_path("42.kv"));
    assert_eq!(f.id, 42);
    assert!(!f.set_by_logfile_path("meta"));
    assert_eq!(f.id, 42);
}

#[test]
fn file_paths() {
    assert_eq!(LogFileId { id: 5 }.get_pathbuf(), "./store/5.kv");
    assert_eq!(LogFileId { id: 1234 }.get_pathbuf(), "./store/1234.kv");
    assert_eq!(pathstr_of_logfile(), "./store/");
    assert_eq!(get_folder_path(), "./store/");
    assert_eq!(MetaFileOpe::metafile_path(), "./store/meta");
}

#[test]
fn meta_record_follows_the_target() {
    let mut m = MetaFileOpe::create();
    assert_eq!(m.cached_usertar_fid(), None);
    assert_eq!(m.set_usertar_fid(5), MetaFileStore { usertarfid: 5 });
    assert_eq!(m.set_usertar_fid(6), MetaFileStore { usertarfid: 6 });
    assert_eq!(m.cached_usertar_fid(), Some(6));
    let mut m2 = MetaFileOpe::create();
    assert_eq!(m2.load_usertar_fid(Some(MetaFileStore { usertarfid: 8 })), 8);
    let mut m3 = MetaFileOpe::create();
    assert_eq!(m3.load_usertar_fid(None), 1);
    assert_eq!(MetaFileStore::default().usertarfid, 1);
}

#[test]
fn kernel_index_and_offsets() {
    let mut c = PaKVCtxLock::new(0);
    let entries = vec![(set("a", "1"), 0u64), (set("b", "2"), 10), (del("a"), 20)];
    c.readall(&entries);
    assert_eq!(c.store.get(&"a".to_string()), None);
    assert_eq!(c.store.get(&"b".to_string()).map(|p| p.offset), Some(10));
    let mut c = PaKVCtxLock::new(30);
    let (p, prev) = c.set_appended("x".to_string(), 12);
    assert_eq!(p.offset, 30);
    assert_eq!(prev, None);
    assert_eq!(c.file.w_offset, 42);
    let (p2, prev2) = c.set_appended("x".to_string(), 4);
    assert_eq!(p2.offset, 42);
    assert_eq!(prev2, Some(p));
    assert_eq!(c.del_appended(&"x".to_string(), 8), Some(p2));
    assert_eq!(c.file.w_offset, 54);
    assert_eq!(c.del_appended(&"y".to_string(), 0), None);
    assert!(c.store.get(&"x".to_string()).is_none());
    let mut o = LogOffsets::new(0);
    assert_eq!(o.line_read(5), 0);
    assert_eq!(o.line_read(7), 5);
    o.iter_start();
    assert_eq!(o.r_offset, 0);
    let mut idx = KVIndexStore::create();
    idx.set("k".to_string(), pakv::kernel::FilePos { offset: 3 });
    assert_eq!(idx.snapshot().len(), 1);
}

fn kfp(o: u64) -> pakv::kernel::FilePos {
    pakv::kernel::FilePos { offset: o }
}

/// Runs the copy steps of a compaction to the end, copying each record to
/// the next offset of a pretend log that grows by 10 per record.
fn run_copies(b: &mut CompressBook) -> Vec<(String, u64)> {
    let mut copied = Vec::new();
    let mut next = 0u64;
    loop {
        match b.next_copy() {
            CopyStep::Copy { k, pos } => {
                copied.push((k, pos.offset));
                b.copied(kfp(next));
                next += 10;
            }
            CopyStep::Finish => break,
        }
    }
    copied.sort();
    copied
}

#[test]
fn compaction_copies_exactly_the_live_records() {
    let mut store = KVIndexStore::create();
    store.set("a".to_string(), kfp(0));
    store.set("b".to_string(), kfp(20));
    store.set("c".to_string(), kfp(40));
    let mut b = CompressBook::new();
    assert!(matches!(b.start_compress_if_need(5000, &store, None, true), CompressAction::Start));
    // One record is copied before users write again.
    let first = match b.next_copy() {
        CopyStep::Copy { k, pos } => (k, pos),
        CopyStep::Finish => panic!("nothing to copy"),
    };
    b.copied(kfp(100));
    // Users delete another key, overwrite the first copied key, and add d.
    let gone = if first.0 == "b" { "c" } else { "b" };
    b.start_compress_if_need(5000, &store, Some((gone.to_string(), kfp(0))), false);
    b.start_compress_if_need(5000, &store, Some((first.0.clone(), kfp(60))), true);
    b.start_compress_if_need(5000, &store, Some(("d".to_string(), kfp(80))), true);
    let rest = run_copies(&mut b);
    assert!(!rest.iter().any(|(k, _)| k == gone));
    let res = b.compact_res_map.as_ref().unwrap();
    let mut keys: Vec<String> = res.snapshot().into_iter().map(|(k, _)| k).collect();
    keys.sort();
    let exp: Vec<String> = vec!["a", "b", "c", "d"].into_iter().filter(|k| *k != gone).map(|k| k.to_string()).collect();
    assert_eq!(keys, exp);
    // The last copy of the overwritten key is its new record, at 60.
    assert!(rest.contains(&(first.0.clone(), 60)));
    assert!(rest.contains(&("d".to_string(), 80)));
}

#[test]
fn index_pops_each_key_once() {
    let mut idx = KVIndexStore::create();
    idx.set("x".to_string(), kfp(1));
    idx.set("y".to_string(), kfp(2));
    let mut got = Vec::new();
    while let Some((k, p)) = idx.pop_any() {
        got.push((k, p.offset));
    }
    got.sort();
    assert_eq!(got, vec![("x".to_string(), 1), ("y".to_string(), 2)]);
    assert!(idx.pop_any().is_none());
}

#[test]
fn compress_book_decisions() {
    let mut store = KVIndexStore::create();
    store.set("a".to_string(), kfp(0));
    store.set("b".to_string(), kfp(20));
    let mut b = CompressBook::new();
    assert_eq!(b.threshold, 1000);
    assert!(matches!(b.start_compress_if_need(999, &store, None, true), CompressAction::NotNeeded));
    assert!(!b.compacting);
    assert!(matches!(b.start_compress_if_need(1000, &store, None, true), CompressAction::Start));
    assert!(b.compacting);
    assert!(b.compact_res_map.as_ref().unwrap().snapshot().is_empty());
    let fp = kfp(1500);
    assert!(matches!(b.start_compress_if_need(1500, &store, Some(("k".to_string(), fp)), true), CompressAction::Recorded));
    assert_eq!(b.new_opes_when_compact.get(&"k".to_string()), Some(&fp));
    // Below the threshold nothing is recorded, even while a compaction runs.
    assert!(matches!(b.start_compress_if_need(10, &store, Some(("c".to_string(), kfp(1600))), true), CompressAction::NotNeeded));
    assert!(b.new_opes_when_compact.get(&"c".to_string()).is_none());
    assert!(matches!(b.start_compress_if_need(1600, &store, Some(("c".to_string(), kfp(1600))), true), CompressAction::Recorded));
    assert!(b.new_opes_when_compact.get(&"c".to_string()).is_some());
    assert!(matches!(b.start_compress_if_need(1700, &store, Some(("c".to_string(), kfp(0))), false), CompressAction::Recorded));
    assert!(b.new_opes_when_compact.get(&"c".to_string()).is_none());
    assert!(b.take_result().is_none());
    b.finish_compaction(700);
    assert!(!b.compacting);
    assert_eq!(b.threshold, 2000);
    assert!(b.take_result().is_some());
    assert!(b.compact_res_map.is_none());
    b.update_threshold(5000);
    assert_eq!(b.threshold, 10000);
    assert!(should_pause(2001, 1000));
    assert!(!should_pause(2000, 1000));
}
