use pakv::logfile::{FilePos, LogFileId};
use pakv::meta::MetaFileStore;
use pakv::msg_gen::{genmsg_getrpl, genmsg_setrpl};
use pakv::pakv4;
use pakv::serial::{KvOpe, KvOpeE};
use pakv::pakv5::{KernelWorker2Main, PaKVCtx, PaKvOpeResult, WRWorkerTask};
use pakv::server_app::{AppAction, NetMsg2App, PaKVServerApp, Requester};
use pakv::worker::{Compactor, CurFileStates, PaKvFileWorker};
use std::collections::HashMap;

#[test]
fn writes_during_compaction_win_over_compacted_positions() {
    let mut c = pakv4::PaKVCtx::create();
    assert!(!c.set("a".to_string(), 0));
    assert!(!c.set("b".to_string(), 30));
    let (compact, persist) = c.start_compaction(vec![LogFileId { id: 1 }]);
    assert_eq!(compact.tarfid.id, 2);
    assert_eq!(c.tarfid.id, 2);
    assert_eq!(persist, MetaFileStore { usertarfid: 2 });
    assert!(!c.set("a".to_string(), 100));
    c.batch_update(LogFileId { id: 3 }, vec![("a".to_string(), 0), ("b".to_string(), 20)]);
    assert_eq!(c.store.get(&"a".to_string()), Some(&FilePos { file_id: 2, pos: 100 }));
    assert_eq!(c.store.get(&"b".to_string()), Some(&FilePos { file_id: 3, pos: 20 }));
    c.compact_end();
    assert!(!c.compacting);
    assert!(c.set("z".to_string(), 1 << 20));
    let (old, need) = c.del(&"b".to_string(), 5);
    assert_eq!(old, Some(FilePos { file_id: 3, pos: 20 }));
    assert!(!need);
}

#[test]
fn value_of_record_reads_sets_only() {
    assert_eq!(pakv4::value_of_record(Some(KvOpe::create(KvOpeE::KvOpeSet { k: "k".to_string(), v: "v".to_string() }))), Some("v".to_string()));
    assert_eq!(pakv4::value_of_record(Some(KvOpe::create(KvOpeE::KvOpeDel { k: "k".to_string() }))), None);
    assert_eq!(pakv4::value_of_record(None), None);
}

#[test]
fn kernel_issues_increasing_ids_and_applies_reports() {
    let mut k = PaKVCtx::create();
    let (id0, t0) = k.set("a".to_string(), "1".to_string());
    assert_eq!(id0, 0);
    assert!(matches!(t0, WRWorkerTask::SetAppend { opeid: 0, .. }));
    assert!(k.get("a".to_string()).is_none());
    let r = k.consume_selfmsg(KernelWorker2Main::AfterSetAppend { opeid: 0, k: "a".to_string(), pos: FilePos { file_id: 1, pos: 0 } }).unwrap();
    assert_eq!(r.opeid, 0);
    let (id1, t1) = k.get("a".to_string()).unwrap();
    assert_eq!(id1, 1);
    assert!(matches!(t1, WRWorkerTask::GetRead { opeid: 1, pos: FilePos { file_id: 1, pos: 0 } }));
    let (id2, _) = k.del("a".to_string());
    assert_eq!(id2, 2);
    let r = k.consume_selfmsg(KernelWorker2Main::AfterDelAppend { opeid: 2, k: "a".to_string() }).unwrap();
    assert!(matches!(r.res, PaKvOpeResult::DelResult { succ: true }));
    let r = k.consume_selfmsg(KernelWorker2Main::AfterDelAppend { opeid: 3, k: "a".to_string() }).unwrap();
    assert!(matches!(r.res, PaKvOpeResult::DelResult { succ: false }));
    k.consume_selfmsg(KernelWorker2Main::AfterSetAppend { opeid: 4, k: "b".to_string(), pos: FilePos { file_id: 1, pos: 9 } });
    assert!(k.consume_selfmsg(KernelWorker2Main::BunchUpdate { fileid: 7, k2off: vec![("b".to_string(), 3)] }).is_none());
    assert_eq!(k.store.get(&"b".to_string()), Some(&FilePos { file_id: 7, pos: 3 }));
    assert!(k.consume_selfmsg(KernelWorker2Main::GetKVHashClone).is_none());
}

#[test]
fn results_go_back_to_their_requesters() {
    let mut app: PaKVServerApp<&'static str, u32> = PaKVServerApp::new(PaKVCtx::create());
    assert!(matches!(app.consume_net(NetMsg2App::ClientIn { cid: 4, s2csender: "client4" }), AppAction::Nothing));
    let a = app.consume_net(NetMsg2App::SetKv { cid: 4, k: "k".to_string(), v: "v".to_string() });
    assert!(matches!(a, AppAction::ToWorker(WRWorkerTask::SetAppend { opeid: 0, .. })));
    let a = app.consume_net(NetMsg2App::SetWithResultSender { sender: 77, k: "j".to_string(), v: "w".to_string() });
    assert!(matches!(a, AppAction::ToWorker(WRWorkerTask::SetAppend { opeid: 1, .. })));
    match app.consume_net(NetMsg2App::Get { cid: 4, k: "nope".to_string() }) {
        AppAction::ToClient { cid, msg } => {
            assert_eq!(cid, 4);
            assert_eq!(msg.serilized_vec, genmsg_getrpl(None));
        },
        _ => panic!("expected an immediate reply"),
    }
    match app.consume_kernel(KernelWorker2Main::AfterSetAppend { opeid: 1, k: "j".to_string(), pos: FilePos { file_id: 1, pos: 0 } }) {
        AppAction::ToChannel { sender, res } => {
            assert_eq!(sender, 77);
            assert!(matches!(res, PaKvOpeResult::SetResult {}));
        },
        _ => panic!("expected the channel"),
    }
    match app.consume_kernel(KernelWorker2Main::AfterSetAppend { opeid: 0, k: "k".to_string(), pos: FilePos { file_id: 1, pos: 20 } }) {
        AppAction::ToClient { cid, msg } => {
            assert_eq!(cid, 4);
            assert_eq!(msg.serilized_vec, genmsg_setrpl(true));
        },
        _ => panic!("expected the client"),
    }
    assert!(app.kernelopeid_2_requester.is_empty());
    match app.consume_net(NetMsg2App::GetWithResultSender { sender: 5, k: "k".to_string() }) {
        AppAction::ToWorker(WRWorkerTask::GetRead { opeid, pos }) => {
            assert_eq!(opeid, 2);
            assert_eq!(pos, FilePos { file_id: 1, pos: 20 });
        },
        _ => panic!("expected a read"),
    }
    assert!(matches!(app.kernelopeid_2_requester.get(&2), Some(Requester::ChannelSendBack(5))));
    app.consume_net(NetMsg2App::ClientOut { cid: 4 });
    let a = app.consume_net(NetMsg2App::Del { cid: 4, k: "k".to_string() });
    assert!(matches!(a, AppAction::ToWorker(WRWorkerTask::DelAppend { opeid: 3, .. })));
    assert!(matches!(app.consume_kernel(KernelWorker2Main::AfterDelAppend { opeid: 3, k: "k".to_string() }), AppAction::Nothing));
}

#[test]
fn compactor_groups_positions_by_file_sorted() {
    let mut c = Compactor::new();
    c.kv = vec![
        ("a".to_string(), FilePos { file_id: 2, pos: 50 }),
        ("b".to_string(), FilePos { file_id: 1, pos: 7 }),
        ("c".to_string(), FilePos { file_id: 2, pos: 10 }),
        ("d".to_string(), FilePos { file_id: 2, pos: 30 }),
    ];
    c.calc_kvranked();
    let mut exp: HashMap<u64, Vec<u64>> = HashMap::new();
    exp.insert(1, vec![7]);
    exp.insert(2, vec![10, 30, 50]);
    assert_eq!(c.kvranked, exp);
    assert!(Compactor::if_need_compact(1 << 20));
    assert!(!Compactor::if_need_compact((1 << 20) - 1));
    c.curfid = 4;
    c.disactived_files.insert(9, ());
    c.disactived_files.insert(2, ());
    assert_eq!(c.find_compactto_fid().id, 10);
    c.disactived_files.clear();
    assert_eq!(c.find_compactto_fid().id, 5);
}

#[test]
fn worker_tracks_positions_and_targets() {
    let mut s = CurFileStates::new();
    let persist = s.tarfileset(LogFileId { id: 3 }, 100);
    assert_eq!(persist.usertarfid, 3);
    assert_eq!(s.tarfileset(LogFileId { id: 3 }, 100).usertarfid, 3);
    assert_eq!(s.appended(20), FilePos { file_id: 3, pos: 100 });
    assert_eq!(s.appended(5), FilePos { file_id: 3, pos: 120 });
    assert_eq!(s.curpos, 125);
    let (comp, next) = s.begin_compaction();
    assert_eq!(next.id, 4);
    assert_eq!(comp.curfid, 4);
    let mut w = PaKvFileWorker::new();
    w.pre_collect_dir(&vec![1, 2, 3]);
    w.tarfile_chosen(LogFileId { id: 3 });
    let mut keys: Vec<u64> = w.disactived_files.keys().copied().collect();
    keys.sort();
    assert_eq!(keys, vec![1, 2]);
    let mut comp = comp;
    w.finish_compaction(&mut comp);
    assert!(w.disactived_files.is_empty());
    assert_eq!(comp.disactived_files.len(), 2);
}

#[test]
fn compaction_output_records_line_starts_and_rolls_over() {
    let mut c = Compactor::new();
    c.curfid = 5;
    c.disactived_files.insert(3, ());
    c.start_output(0);
    assert_eq!(c.out_fid, 6);
    let (p, roll) = c.copied(Some("a".to_string()), 40);
    assert_eq!(p, FilePos { file_id: 6, pos: 0 });
    assert!(roll.is_none());
    let (p, roll) = c.copied(None, 10);
    assert_eq!(p, FilePos { file_id: 6, pos: 40 });
    assert!(roll.is_none());
    let (p, roll) = c.copied(Some("b".to_string()), (1 << 20) - 50);
    assert_eq!(p, FilePos { file_id: 6, pos: 50 });
    assert_eq!(roll, Some((6, vec![("a".to_string(), 0), ("b".to_string(), 50)])));
    assert_eq!(c.out_fid, 7);
    assert!(c.compact_to_files.contains_key(&6));
    c.output_opened(0);
    let (p, _) = c.copied(Some("c".to_string()), 8);
    assert_eq!(p, FilePos { file_id: 7, pos: 0 });
    assert_eq!(c.finish_output(), (7, vec![("c".to_string(), 0)]));
    c.kvranked.insert(3, vec![0]);
    c.kvranked.insert(5, vec![9]);
    c.kvranked.insert(6, vec![1]);
    let mut rm = c.files_to_remove();
    rm.sort();
    // 5 is the target of user writes and 6 was just written: both stay.
    assert_eq!(rm, vec![3]);
    c.end_output();
    assert!(c.disactived_files.contains_key(&6) && c.disactived_files.contains_key(&7));
    assert!(c.compact_to_files.contains_key(&3));
}

#[test]
fn compaction_output_avoids_the_files_it_reads() {
    let mut c = Compactor::new();
    c.curfid = 3;
    c.kv = vec![("a".to_string(), FilePos { file_id: 4, pos: 0 })];
    c.calc_kvranked();
    assert_eq!(c.find_compactto_fid().id, 5);
    c.start_output(0);
    assert_eq!(c.out_fid, 5);
}
