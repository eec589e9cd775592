use vstd::prelude::*;

use crate::group_id::GroupId;
use crate::layer::{layer_handle_send, layer_send_spec};
use crate::message::{
    GroupSendMessage, NetworkType, RpcSendMessage, SendMessage, TransportSend,
};
use crate::registry::{with_group, without_group, GroupRegistry};

verus! {

/// How the node is laid out: one implicit group, or any number of explicitly addressed ones.
#[derive(Clone, Copy, Debug, PartialEq, Eq, Structural)]
pub enum OperatingMode {
    /// Exactly one group, fixed at startup; group sends go to it.
    Single,
    /// Zero or more groups, addressed explicitly and changed at run time.
    Multiple,
}

/// What the dispatcher does with one application message.
#[derive(Debug)]
pub enum Dispatch<S, Q, B> {
    /// Hand this to the transport.
    Transport(TransportSend<S, Q, B>),
    /// Hand this to the RPC service.
    Rpc(RpcSendMessage),
    /// Nothing leaves the node.
    Nothing,
}

/// A registry that suits the mode: single-group mode holds exactly one group.
pub open spec fn registry_fits(mode: OperatingMode, reg: Seq<Seq<u8>>) -> bool {
    mode == OperatingMode::Single ==> reg.len() == 1
}

/// The group a group send goes to: the default in single-group mode, the named group
/// in multi-group mode if it is active; none otherwise.
pub open spec fn send_target(mode: OperatingMode, reg: Seq<Seq<u8>>, id: Seq<u8>) -> Option<Seq<u8>> {
    match mode {
        OperatingMode::Single => if reg.len() == 0 {
            None
        } else {
            Some(reg[0])
        },
        OperatingMode::Multiple => if reg.contains(id) {
            Some(id)
        } else {
            None
        },
    }
}

/// The transport message that carries a group send.
pub open spec fn group_send_spec<S, Q, B>(msg: GroupSendMessage<S>) -> TransportSend<S, Q, B> {
    match msg {
        GroupSendMessage::StableConnect(tid, peer, addr, data) => TransportSend::StableConnect(
            tid,
            peer,
            addr,
            data,
        ),
        GroupSendMessage::StableDisconnect(peer) => TransportSend::StableDisconnect(peer),
        GroupSendMessage::StableResult(tid, peer, ok, force, data) => TransportSend::StableResult(
            tid,
            peer,
            ok,
            force,
            data,
        ),
        GroupSendMessage::Event(tid, peer, data) => TransportSend::Data(tid, peer, data),
        GroupSendMessage::Stream(id, handle) => TransportSend::Stream(id, handle),
    }
}

/// `r` is a broadcast in mode `b` whose bytes are `head` followed by `data`.
pub open spec fn is_framed_broadcast<S, Q, B>(r: Dispatch<S, Q, B>, b: B, head: Seq<u8>, data: Seq<u8>) -> bool {
    r matches Dispatch::Transport(TransportSend::Broadcast(b2, bytes)) && b2 == b && bytes@ == head + data
}

/// What handling `msg` does, with the registry `before` and `after`, when it returns `r`.
pub open spec fn dispatched<S, Q, B>(
    mode: OperatingMode,
    before: Seq<Seq<u8>>,
    after: Seq<Seq<u8>>,
    msg: SendMessage<S, Q, B>,
    r: Dispatch<S, Q, B>,
) -> bool {
    match msg {
        SendMessage::AddGroup(g) => r is Nothing && after == match mode {
            OperatingMode::Single => before,
            OperatingMode::Multiple => with_group(before, g@),
        },
        SendMessage::DelGroup(g) => r is Nothing && after == match mode {
            OperatingMode::Single => before,
            OperatingMode::Multiple => without_group(before, g@),
        },
        _ => after == before && match msg {
            SendMessage::Group(g, m) => match send_target(mode, before, g@) {
                None => r is Nothing,
                Some(_) => r == Dispatch::<S, Q, B>::Transport(group_send_spec(m)),
            },
            SendMessage::Layer(_, m) => r == Dispatch::<S, Q, B>::Transport(layer_send_spec(m)),
            SendMessage::Rpc(uid, param, ws) => r == Dispatch::<S, Q, B>::Rpc(RpcSendMessage(uid, param, ws)),
            SendMessage::Network(NetworkType::Broadcast(b, data)) => if before.len() == 0 {
                r is Nothing
            } else {
                is_framed_broadcast(r, b, before[0], data@)
            },
            SendMessage::Network(NetworkType::Connect(a)) => r == Dispatch::<S, Q, B>::Transport(TransportSend::Connect(a)),
            SendMessage::Network(NetworkType::DisConnect(a)) => r == Dispatch::<S, Q, B>::Transport(TransportSend::DisConnect(a)),
            SendMessage::Network(NetworkType::NetworkState(q)) => r == Dispatch::<S, Q, B>::Transport(TransportSend::NetworkState(q)),
            _ => false,
        },
    }
}

/// Translates a group send into a transport message, fields unchanged.
pub fn group_handle_send<S, Q, B>(msg: GroupSendMessage<S>) -> (r: TransportSend<S, Q, B>)
    ensures
        r == group_send_spec::<S, Q, B>(msg),
{
    match msg {
        GroupSendMessage::StableConnect(tid, peer, addr, data) => TransportSend::StableConnect(
            tid,
            peer,
            addr,
            data,
        ),
        GroupSendMessage::StableDisconnect(peer) => TransportSend::StableDisconnect(peer),
        GroupSendMessage::StableResult(tid, peer, ok, force, data) => TransportSend::StableResult(
            tid,
            peer,
            ok,
            force,
            data,
        ),
        GroupSendMessage::Event(tid, peer, data) => TransportSend::Data(tid, peer, data),
        GroupSendMessage::Stream(id, handle) => TransportSend::Stream(id, handle),
    }
}

/// The bytes of a broadcast: the group identifier, then the payload.
pub fn frame_broadcast(id: &GroupId, data: Vec<u8>) -> (r: Vec<u8>)
    ensures
        r@ == id@ + data@,
{
    let mut bytes: Vec<u8> = Vec::new();
    let mut i: usize = 0;
    while i < 32
        invariant
            i <= 32,
            bytes@ == id@.subrange(0, i as int),
        decreases 32 - i,
    {
        bytes.push(id.0[i]);
        assert(id@.subrange(0, i + 1) =~= id@.subrange(0, i as int).push(id@[i as int]));
        i = i + 1;
    }
    let mut k: usize = 0;
    while k < data.len()
        invariant
            k <= data@.len(),
            bytes@ == id@ + data@.subrange(0, k as int),
        decreases data@.len() - k,
    {
        bytes.push(data[k]);
        assert(data@.subrange(0, k + 1) =~= data@.subrange(0, k as int).push(data@[k as int]));
        k = k + 1;
    }
    assert(data@.subrange(0, data@.len() as int) =~= data@);
    assert(id@.subrange(0, 32) =~= id@);
    bytes
}

/// Handles one message from the application: group and layer sends go to the
/// transport, RPC requests to the RPC service, broadcasts to the transport with the
/// default group's identifier in front, and in multi-group mode group additions and
/// removals change the registry.
pub fn handle_send<S, Q, B>(mode: OperatingMode, registry: &mut GroupRegistry, msg: SendMessage<S, Q, B>) -> (r: Dispatch<S, Q, B>)
    ensures
        dispatched(mode, old(registry)@, final(registry)@, msg, r),
        registry_fits(mode, old(registry)@) ==> registry_fits(mode, final(registry)@),
{
    match msg {
        SendMessage::Group(gid, m) => {
            let deliver = match mode {
                OperatingMode::Single => registry.len() > 0,
                OperatingMode::Multiple => registry.contains(&gid),
            };
            if deliver {
                Dispatch::Transport(group_handle_send(m))
            } else {
                Dispatch::Nothing
            }
        },
        SendMessage::Layer(_tgid, m) => Dispatch::Transport(layer_handle_send(m)),
        SendMessage::Rpc(uid, param, ws) => Dispatch::Rpc(RpcSendMessage(uid, param, ws)),
        SendMessage::Network(n) => match n {
            NetworkType::Broadcast(b, data) => match registry.default_group() {
                None => Dispatch::Nothing,
                Some(g) => Dispatch::Transport(TransportSend::Broadcast(b, frame_broadcast(&g, data))),
            },
            NetworkType::Connect(a) => Dispatch::Transport(TransportSend::Connect(a)),
            NetworkType::DisConnect(a) => Dispatch::Transport(TransportSend::DisConnect(a)),
            NetworkType::NetworkState(q) => Dispatch::Transport(TransportSend::NetworkState(q)),
        },
        SendMessage::AddGroup(gid) => {
            if mode == OperatingMode::Multiple {
                registry.add(gid);
            }
            Dispatch::Nothing
        },
        SendMessage::DelGroup(gid) => {
            if mode == OperatingMode::Multiple {
                registry.remove(&gid);
            }
            Dispatch::Nothing
        },
    }
}

/// A broadcast with no active group sends nothing; otherwise its bytes are exactly the
/// first registry entry followed by the payload, and the registry is unchanged.
pub proof fn lemma_broadcast_framing<S, Q, B>(
    mode: OperatingMode,
    before: Seq<Seq<u8>>,
    after: Seq<Seq<u8>>,
    b: B,
    data: Vec<u8>,
    r: Dispatch<S, Q, B>,
)
    requires
        dispatched(mode, before, after, SendMessage::Network(NetworkType::Broadcast(b, data)), r),
    ensures
        after == before,
        before.len() == 0 ==> r is Nothing,
        before.len() > 0 ==> is_framed_broadcast(r, b, before[0], data@),
{
}

} // verus!
