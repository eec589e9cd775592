use vstd::prelude::*;

use crate::group_id::GroupId;
use crate::message::{
    DeliveryKind, LayerReceiveMessage, LayerSendMessage, PeerAddr, ReceiveMessage, TransportSend,
};

verus! {

/// The transport message that carries a foreign-group send.
pub open spec fn layer_send_spec<S, Q, B>(msg: LayerSendMessage<S>) -> TransportSend<S, Q, B> {
    match msg {
        LayerSendMessage::Connect(tid, peer, addr, data) => TransportSend::StableConnect(
            tid,
            peer,
            addr,
            data,
        ),
        LayerSendMessage::Disconnect(peer) => TransportSend::StableDisconnect(peer),
        LayerSendMessage::Result(tid, peer, ok, force, data) => TransportSend::StableResult(
            tid,
            peer,
            ok,
            force,
            data,
        ),
        LayerSendMessage::Event(tid, peer, data) => TransportSend::Data(tid, peer, data),
        LayerSendMessage::Stream(id, handle) => TransportSend::Stream(id, handle),
    }
}

/// Translates a foreign-group send into a transport message, fields unchanged.
pub fn layer_handle_send<S, Q, B>(msg: LayerSendMessage<S>) -> (r: TransportSend<S, Q, B>)
    ensures
        r == layer_send_spec::<S, Q, B>(msg),
{
    match msg {
        LayerSendMessage::Connect(tid, peer, addr, data) => TransportSend::StableConnect(
            tid,
            peer,
            addr,
            data,
        ),
        LayerSendMessage::Disconnect(peer) => TransportSend::StableDisconnect(peer),
        LayerSendMessage::Result(tid, peer, ok, force, data) => TransportSend::StableResult(
            tid,
            peer,
            ok,
            force,
            data,
        ),
        LayerSendMessage::Event(tid, peer, data) => TransportSend::Data(tid, peer, data),
        LayerSendMessage::Stream(id, handle) => TransportSend::Stream(id, handle),
    }
}

pub fn layer_handle_recv_connect<S>(fgid: GroupId, peer: PeerAddr, data: Vec<u8>) -> (r:
    ReceiveMessage<S>)
    ensures
        r == ReceiveMessage::<S>::Layer(fgid, LayerReceiveMessage::Connect(peer, data)),
{
    ReceiveMessage::Layer(fgid, LayerReceiveMessage::Connect(peer, data))
}

pub fn layer_handle_recv_result<S>(fgid: GroupId, peer: PeerAddr, ok: bool, data: Vec<u8>) -> (r:
    ReceiveMessage<S>)
    ensures
        r == ReceiveMessage::<S>::Layer(fgid, LayerReceiveMessage::Result(peer, ok, data)),
{
    ReceiveMessage::Layer(fgid, LayerReceiveMessage::Result(peer, ok, data))
}

pub fn layer_handle_recv_leave<S>(fgid: GroupId, peer: PeerAddr) -> (r: ReceiveMessage<S>)
    ensures
        r == ReceiveMessage::<S>::Layer(fgid, LayerReceiveMessage::Leave(peer)),
{
    ReceiveMessage::Layer(fgid, LayerReceiveMessage::Leave(peer))
}

pub fn layer_handle_recv_data<S>(fgid: GroupId, peer: PeerAddr, data: Vec<u8>) -> (r:
    ReceiveMessage<S>)
    ensures
        r == ReceiveMessage::<S>::Layer(fgid, LayerReceiveMessage::Event(peer, data)),
{
    ReceiveMessage::Layer(fgid, LayerReceiveMessage::Event(peer, data))
}

pub fn layer_handle_recv_stream<S>(fgid: GroupId, id: u32, handle: S, data: Vec<u8>) -> (r:
    ReceiveMessage<S>)
    ensures
        r == ReceiveMessage::<S>::Layer(fgid, LayerReceiveMessage::Stream(id, handle, data)),
{
    ReceiveMessage::Layer(fgid, LayerReceiveMessage::Stream(id, handle, data))
}

pub fn layer_handle_recv_delivery<S>(fgid: GroupId, kind: DeliveryKind, tid: u64, ok: bool) -> (r:
    ReceiveMessage<S>)
    ensures
        r == ReceiveMessage::<S>::Layer(fgid, LayerReceiveMessage::Delivery(kind, tid, ok)),
{
    ReceiveMessage::Layer(fgid, LayerReceiveMessage::Delivery(kind, tid, ok))
}

} // verus!
