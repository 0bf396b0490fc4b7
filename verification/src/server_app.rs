//! The request routing of the asynchronous server: each request from the
//! network becomes a task for the file worker, tagged with an operation id,
//! and the kernel's result for that id goes back to whoever asked.
//!
//! The channels to clients and to result receivers are held by the caller;
//! here they are the opaque values `S` (a client's reply channel) and `R` (a
//! one-shot result channel).
use crate::msg_gen::{framed, genmsg_delrpl, genmsg_getrpl, genmsg_setrpl, utf8};
use crate::pakv5::{KernelWorker2Main, PaKVCtx, PaKVOpeId, PaKvOpeResult, Server2ClientMsg, WRWorkerTask};
use std::collections::HashMap;
use vstd::prelude::*;
use vstd::string::StringSliceAdditionalSpecFns;

verus! {

broadcast use vstd::std_specs::hash::group_hash_axioms;

/// The id of a connected client.
pub type ClientId = u64;

/// Who waits for the result of an operation.
pub enum Requester<R> {
    /// A network client, answered on its connection.
    NetClient(ClientId),
    /// A caller that passed a one-shot channel.
    ChannelSendBack(R),
}

/// A message from the network side to the server.
pub enum NetMsg2App<S, R> {
    ClientIn { cid: ClientId, s2csender: S },
    ClientOut { cid: ClientId },
    SetKv { cid: ClientId, k: String, v: String },
    Get { cid: ClientId, k: String },
    Del { cid: ClientId, k: String },
    SetWithResultSender { sender: R, k: String, v: String },
    GetWithResultSender { sender: R, k: String },
    DelWithResultSender { sender: R, k: String },
}

/// What the server has the caller do next.
pub enum AppAction<R> {
    /// Nothing.
    Nothing,
    /// Hand the task to the file worker.
    ToWorker(WRWorkerTask),
    /// Send the framed reply to the client `cid`.
    ToClient { cid: ClientId, msg: Server2ClientMsg },
    /// Send the result on the one-shot channel.
    ToChannel { sender: R, res: PaKvOpeResult },
}

/// The framed reply to a network client for the result `res`.
pub open spec fn reply_bytes(res: PaKvOpeResult) -> Seq<u8> {
    match res {
        PaKvOpeResult::SetResult {  } => framed("s:set success".spec_bytes()),
        PaKvOpeResult::DelResult { succ } => framed(
            if succ { "s:del success".spec_bytes() } else { "f:k not found".spec_bytes() },
        ),
        PaKvOpeResult::GetResult { v } => framed(
            match v {
                Some(v) => "s:get value: ".spec_bytes() + utf8(v@),
                None => "f:k not found".spec_bytes(),
            },
        ),
    }
}

/// Every reply marks its outcome in its first two body bytes: `s:` when the
/// operation succeeded (a set, a delete of a present key, a get that found
/// a value) and `f:` otherwise.
pub proof fn lemma_reply_marks_outcome(res: PaKvOpeResult)
    ensures
        ({
            let body = reply_bytes(res).skip(4);
            let ok = match res {
                PaKvOpeResult::SetResult {  } => true,
                PaKvOpeResult::DelResult { succ } => succ,
                PaKvOpeResult::GetResult { v } => v is Some,
            };
            &&& body.len() >= 2
            &&& body[1] == 58u8
            &&& (body[0] == 115u8) == ok
            &&& (body[0] == 102u8) == !ok
        }),
{
    reveal_strlit("s:set success");
    reveal_strlit("s:del success");
    reveal_strlit("f:k not found");
    reveal_strlit("s:get value: ");
    vstd::string::is_ascii_spec_bytes("s:set success");
    vstd::string::is_ascii_spec_bytes("s:del success");
    vstd::string::is_ascii_spec_bytes("f:k not found");
    vstd::string::is_ascii_spec_bytes("s:get value: ");
    let b = match res {
        PaKvOpeResult::SetResult {  } => "s:set success".spec_bytes(),
        PaKvOpeResult::DelResult { succ } => if succ { "s:del success".spec_bytes() } else { "f:k not found".spec_bytes() },
        PaKvOpeResult::GetResult { v } => match v {
            Some(v) => "s:get value: ".spec_bytes() + utf8(v@),
            None => "f:k not found".spec_bytes(),
        },
    };
    assert(reply_bytes(res) == framed(b));
    assert(framed(b).skip(4) =~= b);
}

/// The server: the kernel, the connected clients, and who waits for which
/// operation.
#[verifier::reject_recursive_types(S)]
#[verifier::reject_recursive_types(R)]
pub struct PaKVServerApp<S, R> {
    pub kernel: PaKVCtx,
    pub clients_cid2sender: HashMap<ClientId, S>,
    pub kernelopeid_2_requester: HashMap<PaKVOpeId, Requester<R>>,
}

impl<S, R> PaKVServerApp<S, R> {
    /// Every waiting operation has an id below the kernel's next id.
    pub open spec fn wf(&self) -> bool {
        &&& self.kernel.wf()
        &&& forall|id: PaKVOpeId| #[trigger] self.kernelopeid_2_requester@.contains_key(id) ==> id < self.kernel.opeid
    }

    /// A server around `kernel`, with no client and nothing waiting.
    pub fn new(kernel: PaKVCtx) -> (a: Self)
        requires
            kernel.wf(),
        ensures
            a.wf(),
            a.kernel == kernel,
            a.clients_cid2sender@ == Map::<ClientId, S>::empty(),
            a.kernelopeid_2_requester@ == Map::<PaKVOpeId, Requester<R>>::empty(),
    {
        PaKVServerApp { kernel, clients_cid2sender: HashMap::new(), kernelopeid_2_requester: HashMap::new() }
    }

    /// Takes out who waits for `opeid`.
    pub fn consume_requester_of_opeid(&mut self, opeid: PaKVOpeId) -> (r: Requester<R>)
        requires
            old(self).kernelopeid_2_requester@.contains_key(opeid),
        ensures
            r == old(self).kernelopeid_2_requester@[opeid],
            final(self).kernelopeid_2_requester@ == old(self).kernelopeid_2_requester@.remove(opeid),
            final(self).kernel == old(self).kernel,
            final(self).clients_cid2sender@ == old(self).clients_cid2sender@,
    {
        self.kernelopeid_2_requester.remove(&opeid).unwrap()
    }

    /// A client connected.
    pub fn client_in(&mut self, cid: ClientId, s2csender: S)
        ensures
            final(self).clients_cid2sender@ == old(self).clients_cid2sender@.insert(cid, s2csender),
            final(self).kernel == old(self).kernel,
            final(self).kernelopeid_2_requester@ == old(self).kernelopeid_2_requester@,
    {
        self.clients_cid2sender.insert(cid, s2csender);
    }

    /// A client disconnected.
    pub fn client_out(&mut self, cid: ClientId)
        ensures
            final(self).clients_cid2sender@ == old(self).clients_cid2sender@.remove(cid),
            final(self).kernel == old(self).kernel,
            final(self).kernelopeid_2_requester@ == old(self).kernelopeid_2_requester@,
    {
        self.clients_cid2sender.remove(&cid);
    }

    /// Takes in a message from the network side: records connections, and
    /// turns each request into a worker task whose id is recorded with its
    /// requester. A get of a key that is not in the index is answered at
    /// once.
    pub fn consume_net(&mut self, msg: NetMsg2App<S, R>) -> (act: AppAction<R>)
        requires
            old(self).wf(),
            old(self).kernel.opeid < u64::MAX,
            msg matches NetMsg2App::Get { cid, k } ==> old(self).kernel.store@.contains_key(k@)
                || old(self).clients_cid2sender@.contains_key(cid),
        ensures
            final(self).wf(),
            match msg {
                NetMsg2App::ClientIn { cid, s2csender } => {
                    &&& final(self).clients_cid2sender@ == old(self).clients_cid2sender@.insert(cid, s2csender)
                    &&& final(self).kernelopeid_2_requester@ == old(self).kernelopeid_2_requester@
                    &&& act is Nothing
                },
                NetMsg2App::ClientOut { cid } => {
                    &&& final(self).clients_cid2sender@ == old(self).clients_cid2sender@.remove(cid)
                    &&& final(self).kernelopeid_2_requester@ == old(self).kernelopeid_2_requester@
                    &&& act is Nothing
                },
                NetMsg2App::SetKv { cid, k, v } => {
                    let id = old(self).kernel.opeid;
                    &&& final(self).kernelopeid_2_requester@ == old(self).kernelopeid_2_requester@.insert(id, Requester::NetClient(cid))
                    &&& act == AppAction::<R>::ToWorker(WRWorkerTask::SetAppend { opeid: id, k, v })
                },
                NetMsg2App::Del { cid, k } => {
                    let id = old(self).kernel.opeid;
                    &&& final(self).kernelopeid_2_requester@ == old(self).kernelopeid_2_requester@.insert(id, Requester::NetClient(cid))
                    &&& act == AppAction::<R>::ToWorker(WRWorkerTask::DelAppend { opeid: id, k })
                },
                NetMsg2App::Get { cid, k } => {
                    let id = old(self).kernel.opeid;
                    if old(self).kernel.store@.contains_key(k@) {
                        &&& final(self).kernelopeid_2_requester@ == old(self).kernelopeid_2_requester@.insert(id, Requester::NetClient(cid))
                        &&& act == AppAction::<R>::ToWorker(WRWorkerTask::GetRead { opeid: id, pos: old(self).kernel.store@[k@] })
                    } else {
                        &&& final(self).kernelopeid_2_requester@ == old(self).kernelopeid_2_requester@
                        &&& act matches AppAction::ToClient { cid: c, msg: m } && c == cid
                            && m.serilized_vec@ == framed("f:k not found".spec_bytes())
                    }
                },
                NetMsg2App::SetWithResultSender { sender, k, v } => {
                    let id = old(self).kernel.opeid;
                    &&& final(self).kernelopeid_2_requester@ == old(self).kernelopeid_2_requester@.insert(id, Requester::ChannelSendBack(sender))
                    &&& act == AppAction::<R>::ToWorker(WRWorkerTask::SetAppend { opeid: id, k, v })
                },
                NetMsg2App::DelWithResultSender { sender, k } => {
                    let id = old(self).kernel.opeid;
                    &&& final(self).kernelopeid_2_requester@ == old(self).kernelopeid_2_requester@.insert(id, Requester::ChannelSendBack(sender))
                    &&& act == AppAction::<R>::ToWorker(WRWorkerTask::DelAppend { opeid: id, k })
                },
                NetMsg2App::GetWithResultSender { sender, k } => {
                    let id = old(self).kernel.opeid;
                    if old(self).kernel.store@.contains_key(k@) {
                        &&& final(self).kernelopeid_2_requester@ == old(self).kernelopeid_2_requester@.insert(id, Requester::ChannelSendBack(sender))
                        &&& act == AppAction::<R>::ToWorker(WRWorkerTask::GetRead { opeid: id, pos: old(self).kernel.store@[k@] })
                    } else {
                        &&& final(self).kernelopeid_2_requester@ == old(self).kernelopeid_2_requester@
                        &&& act == AppAction::ToChannel { sender, res: PaKvOpeResult::GetResult { v: None } }
                    }
                },
            },
            final(self).kernel.store@ == old(self).kernel.store@,
            final(self).kernel.opeid == old(self).kernel.opeid + (if act is ToWorker { 1int } else { 0int }),
    {
        match msg {
            NetMsg2App::ClientIn { cid, s2csender } => {
                self.client_in(cid, s2csender);
                AppAction::Nothing
            },
            NetMsg2App::ClientOut { cid } => {
                self.client_out(cid);
                AppAction::Nothing
            },
            NetMsg2App::SetKv { cid, k, v } => {
                let (opeid, task) = self.kernel.set(k, v);
                self.kernelopeid_2_requester.insert(opeid, Requester::NetClient(cid));
                AppAction::ToWorker(task)
            },
            NetMsg2App::Get { cid, k } => {
                match self.kernel.get(k) {
                    Some((id, task)) => {
                        self.kernelopeid_2_requester.insert(id, Requester::NetClient(cid));
                        AppAction::ToWorker(task)
                    },
                    None => AppAction::ToClient { cid, msg: Server2ClientMsg::new(genmsg_getrpl(None)) },
                }
            },
            NetMsg2App::Del { cid, k } => {
                let (opeid, task) = self.kernel.del(k);
                self.kernelopeid_2_requester.insert(opeid, Requester::NetClient(cid));
                AppAction::ToWorker(task)
            },
            NetMsg2App::DelWithResultSender { sender, k } => {
                let (opeid, task) = self.kernel.del(k);
                self.kernelopeid_2_requester.insert(opeid, Requester::ChannelSendBack(sender));
                AppAction::ToWorker(task)
            },
            NetMsg2App::GetWithResultSender { sender, k } => {
                match self.kernel.get(k) {
                    Some((opeid, task)) => {
                        self.kernelopeid_2_requester.insert(opeid, Requester::ChannelSendBack(sender));
                        AppAction::ToWorker(task)
                    },
                    None => AppAction::ToChannel { sender, res: PaKvOpeResult::GetResult { v: None } },
                }
            },
            NetMsg2App::SetWithResultSender { sender, k, v } => {
                let (opeid, task) = self.kernel.set(k, v);
                self.kernelopeid_2_requester.insert(opeid, Requester::ChannelSendBack(sender));
                AppAction::ToWorker(task)
            },
        }
    }

    /// Takes in a report of the file worker: the kernel updates the index,
    /// and a result goes to the requester recorded for its operation id (a
    /// network client that is gone gets nothing).
    pub fn consume_kernel(&mut self, msg: KernelWorker2Main) -> (act: AppAction<R>)
        requires
            old(self).wf(),
            msg matches KernelWorker2Main::BunchUpdate { k2off, .. } ==> forall|i: int|
                0 <= i < k2off@.len() ==> #[trigger] old(self).kernel.store@.contains_key(k2off@[i].0@),
            msg matches KernelWorker2Main::AfterSetAppend { opeid, .. } ==> old(self).kernelopeid_2_requester@.contains_key(opeid),
            msg matches KernelWorker2Main::AfterDelAppend { opeid, .. } ==> old(self).kernelopeid_2_requester@.contains_key(opeid),
            msg matches KernelWorker2Main::AfterGetRead { opeid, v } ==> old(self).kernelopeid_2_requester@.contains_key(opeid)
                && utf8(v@).len() + 100 <= usize::MAX,
        ensures
            final(self).wf(),
            final(self).clients_cid2sender@ == old(self).clients_cid2sender@,
            final(self).kernel.opeid == old(self).kernel.opeid,
            match msg {
                KernelWorker2Main::AfterDelAppend { opeid, k } => match old(self).kernelopeid_2_requester@[opeid] {
                    Requester::NetClient(cid) => old(self).clients_cid2sender@.contains_key(cid) ==> (act matches AppAction::ToClient {
                        msg: m,
                        ..
                    } && m.serilized_vec@ == framed(
                        if old(self).kernel.store@.contains_key(k@) {
                            "s:del success".spec_bytes()
                        } else {
                            "f:k not found".spec_bytes()
                        },
                    )),
                    _ => true,
                },
                KernelWorker2Main::AfterSetAppend { opeid, .. } => match old(self).kernelopeid_2_requester@[opeid] {
                    Requester::NetClient(cid) => old(self).clients_cid2sender@.contains_key(cid) ==> (act matches AppAction::ToClient {
                        msg: m,
                        ..
                    } && m.serilized_vec@ == framed("s:set success".spec_bytes())),
                    _ => true,
                },
                KernelWorker2Main::AfterGetRead { opeid, v } => match old(self).kernelopeid_2_requester@[opeid] {
                    Requester::NetClient(cid) => old(self).clients_cid2sender@.contains_key(cid) ==> (act matches AppAction::ToClient {
                        msg: m,
                        ..
                    } && m.serilized_vec@ == framed("s:get value: ".spec_bytes() + utf8(v@))),
                    _ => true,
                },
                _ => true,
            },
            msg matches KernelWorker2Main::GetKVHashClone ==> act is Nothing
                && final(self).kernelopeid_2_requester@ == old(self).kernelopeid_2_requester@,
            msg matches KernelWorker2Main::BunchUpdate { .. } ==> act is Nothing
                && final(self).kernelopeid_2_requester@ == old(self).kernelopeid_2_requester@,
            ({
                let id = match msg {
                    KernelWorker2Main::AfterSetAppend { opeid, .. } => opeid,
                    KernelWorker2Main::AfterDelAppend { opeid, .. } => opeid,
                    KernelWorker2Main::AfterGetRead { opeid, .. } => opeid,
                    _ => 0,
                };
                let res = match msg {
                    KernelWorker2Main::AfterSetAppend { .. } => PaKvOpeResult::SetResult {  },
                    KernelWorker2Main::AfterDelAppend { k, .. } => PaKvOpeResult::DelResult { succ: old(self).kernel.store@.contains_key(k@) },
                    KernelWorker2Main::AfterGetRead { v, .. } => PaKvOpeResult::GetResult { v: Some(v) },
                    _ => PaKvOpeResult::SetResult {  },
                };
                (msg is AfterSetAppend || msg is AfterDelAppend || msg is AfterGetRead) ==> {
                    &&& final(self).kernelopeid_2_requester@ == old(self).kernelopeid_2_requester@.remove(id)
                    &&& match old(self).kernelopeid_2_requester@[id] {
                        Requester::NetClient(cid) => if old(self).clients_cid2sender@.contains_key(cid) {
                            act matches AppAction::ToClient { cid: c, msg: m } && c == cid && m.serilized_vec@ == reply_bytes(res)
                        } else {
                            act is Nothing
                        },
                        Requester::ChannelSendBack(sender) => act == AppAction::ToChannel { sender, res },
                    }
                }
            }),
    {
        let res = self.kernel.consume_selfmsg(msg);
        match res {
            None => AppAction::Nothing,
            Some(res) => {
                let requster = self.consume_requester_of_opeid(res.opeid);
                match requster {
                    Requester::NetClient(cid) => {
                        if self.clients_cid2sender.contains_key(&cid) {
                            let bytes = match res.res {
                                PaKvOpeResult::SetResult {  } => genmsg_setrpl(true),
                                PaKvOpeResult::DelResult { succ } => genmsg_delrpl(succ),
                                PaKvOpeResult::GetResult { v } => genmsg_getrpl(v),
                            };
                            AppAction::ToClient { cid, msg: Server2ClientMsg::new(bytes) }
                        } else {
                            AppAction::Nothing
                        }
                    },
                    Requester::ChannelSendBack(send) => AppAction::ToChannel { sender: send, res: res.res },
                }
            },
        }
    }
}

/// A new request never displaces one still waiting: the id it gets is not
/// in the table of waiting operations.
pub proof fn lemma_new_request_id_is_free<S, R>(app: PaKVServerApp<S, R>)
    requires
        app.wf(),
    ensures
        !app.kernelopeid_2_requester@.contains_key(app.kernel.opeid),
{
}

} // verus!
