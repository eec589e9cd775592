use vstd::prelude::*;

use crate::group_id::{GroupId, GROUP_LENGTH};
use crate::layer::{
    layer_handle_recv_connect, layer_handle_recv_data, layer_handle_recv_delivery,
    layer_handle_recv_leave, layer_handle_recv_result, layer_handle_recv_stream,
};
use crate::message::{
    GroupReceiveMessage, LayerReceiveMessage, PeerAddr, ReceiveMessage, TransportEvent,
};
use crate::registry::{lemma_remove_all, with_group, without_group, GroupRegistry};

verus! {

/// Where an inbound message that names a group goes.
#[derive(Clone, Copy, Debug, PartialEq, Eq, Structural)]
pub enum Route {
    /// No group is active: the message is dropped.
    Discard,
    /// The group is active on this node.
    Local,
    /// The group is foreign: layer handling.
    Layer,
}

pub open spec fn route_of(reg: Seq<Seq<u8>>, id: Seq<u8>) -> Route {
    if reg.len() == 0 {
        Route::Discard
    } else if reg.contains(id) {
        Route::Local
    } else {
        Route::Layer
    }
}

/// The group named by a framed payload: its first 32 bytes.
pub open spec fn frame_id(data: Seq<u8>) -> Seq<u8> {
    data.subrange(0, 32)
}

/// What follows the group identifier in a framed payload.
pub open spec fn frame_body(data: Seq<u8>) -> Seq<u8> {
    data.subrange(32, data.len() as int)
}

/// The framed payload of an inbound message; a leave has none.
pub open spec fn event_payload<S>(msg: TransportEvent<S>) -> Seq<u8> {
    match msg {
        TransportEvent::StableConnect(_, d) => d@,
        TransportEvent::StableResult(_, _, d) => d@,
        TransportEvent::StableLeave(_) => Seq::empty(),
        TransportEvent::Data(_, d) => d@,
        TransportEvent::Stream(_, _, d) => d@,
        TransportEvent::Delivery(_, _, _, d) => d@,
    }
}

/// `m` is the local-group event for `msg`, whose payload has been split into `id` and `body`.
pub open spec fn is_group_event<S>(msg: TransportEvent<S>, id: Seq<u8>, body: Seq<u8>, m: ReceiveMessage<S>) -> bool {
    match m {
        ReceiveMessage::Group(g, e) => g@ == id && match msg {
            TransportEvent::StableConnect(p, _) => e matches GroupReceiveMessage::StableConnect(q, d) && q == p && d@ == body,
            TransportEvent::StableResult(p, ok, _) => e matches GroupReceiveMessage::StableResult(q, k, d) && q == p && k == ok && d@ == body,
            TransportEvent::Data(p, _) => e matches GroupReceiveMessage::Event(q, d) && q == p && d@ == body,
            TransportEvent::Stream(i, h, _) => e matches GroupReceiveMessage::Stream(j, g2, d) && j == i && g2 == h && d@ == body,
            TransportEvent::Delivery(t, tid, ok, _) => e matches GroupReceiveMessage::Delivery(t2, tid2, ok2) && t2 == t && tid2 == tid && ok2 == ok,
            TransportEvent::StableLeave(_) => false,
        },
        ReceiveMessage::Layer(..) => false,
    }
}

/// `m` is the foreign-group event for `msg`, whose payload has been split into `id` and `body`.
pub open spec fn is_layer_event<S>(msg: TransportEvent<S>, id: Seq<u8>, body: Seq<u8>, m: ReceiveMessage<S>) -> bool {
    match m {
        ReceiveMessage::Layer(g, e) => g@ == id && match msg {
            TransportEvent::StableConnect(p, _) => e matches LayerReceiveMessage::Connect(q, d) && q == p && d@ == body,
            TransportEvent::StableResult(p, ok, _) => e matches LayerReceiveMessage::Result(q, k, d) && q == p && k == ok && d@ == body,
            TransportEvent::Data(p, _) => e matches LayerReceiveMessage::Event(q, d) && q == p && d@ == body,
            TransportEvent::Stream(i, h, _) => e matches LayerReceiveMessage::Stream(j, g2, d) && j == i && g2 == h && d@ == body,
            TransportEvent::Delivery(t, tid, ok, _) => e matches LayerReceiveMessage::Delivery(t2, tid2, ok2) && t2 == t && tid2 == tid && ok2 == ok,
            TransportEvent::StableLeave(_) => false,
        },
        ReceiveMessage::Group(..) => false,
    }
}

/// `m` tells the local side of group `id` that `peer` left.
pub open spec fn is_group_leave<S>(m: ReceiveMessage<S>, id: Seq<u8>, peer: PeerAddr) -> bool {
    m matches ReceiveMessage::Group(g, GroupReceiveMessage::StableLeave(p)) && g@ == id && p == peer
}

/// `m` tells the layer side of group `id` that `peer` left.
pub open spec fn is_layer_leave<S>(m: ReceiveMessage<S>, id: Seq<u8>, peer: PeerAddr) -> bool {
    m matches ReceiveMessage::Layer(g, LayerReceiveMessage::Leave(p)) && g@ == id && p == peer
}

/// A leave from `peer`, told to the local and the layer side of every group in `reg`, in order.
pub open spec fn is_leave_fanout<S>(reg: Seq<Seq<u8>>, peer: PeerAddr, out: Seq<ReceiveMessage<S>>) -> bool {
    &&& out.len() == 2 * reg.len()
    &&& forall|i: int| 0 <= i < reg.len() ==> is_group_leave(#[trigger] out[2 * i], reg[i], peer)
    &&& forall|i: int| 0 <= i < reg.len() ==> is_layer_leave(#[trigger] out[2 * i + 1], reg[i], peer)
}

/// What the demultiplexer hands the application for `msg` while the registry is `reg`.
pub open spec fn inbound_routed<S>(reg: Seq<Seq<u8>>, msg: TransportEvent<S>, out: Seq<ReceiveMessage<S>>) -> bool {
    match msg {
        TransportEvent::StableLeave(peer) => is_leave_fanout(reg, peer, out),
        _ => {
            let data = event_payload(msg);
            if data.len() < 32 {
                out.len() == 0
            } else {
                match route_of(reg, frame_id(data)) {
                    Route::Discard => out.len() == 0,
                    Route::Local => out.len() == 1 && is_group_event(msg, frame_id(data), frame_body(data), out[0]),
                    Route::Layer => out.len() == 1 && is_layer_event(msg, frame_id(data), frame_body(data), out[0]),
                }
            }
        },
    }
}

/// Decides where a message for group `id` goes.
pub fn classify(registry: &GroupRegistry, id: &GroupId) -> (r: Route)
    ensures
        r == route_of(registry@, id@),
{
    if registry.len() == 0 {
        Route::Discard
    } else if registry.contains(id) {
        Route::Local
    } else {
        Route::Layer
    }
}

/// Splits a framed payload into its group identifier and the rest; `None` if it is
/// shorter than an identifier.
pub fn split_frame(data: &Vec<u8>) -> (r: Option<(GroupId, Vec<u8>)>)
    ensures
        r is None <==> data@.len() < 32,
        r matches Some((g, body)) ==> g@ == frame_id(data@) && body@ == frame_body(data@),
{
    if data.len() < GROUP_LENGTH {
        return None;
    }
    let mut id = [0u8; 32];
    let mut i: usize = 0;
    while i < GROUP_LENGTH
        invariant
            i <= 32,
            data@.len() >= 32,
            forall|j: int| 0 <= j < i ==> id@[j] == data@[j],
        decreases 32 - i,
    {
        id[i] = data[i];
        i = i + 1;
    }
    let mut body: Vec<u8> = Vec::new();
    let mut k: usize = GROUP_LENGTH;
    while k < data.len()
        invariant
            32 <= k <= data@.len(),
            body@ == data@.subrange(32, k as int),
        decreases data@.len() - k,
    {
        body.push(data[k]);
        assert(data@.subrange(32, k + 1) =~= data@.subrange(32, k as int).push(data@[k as int]));
        k = k + 1;
    }
    assert(id@ =~= frame_id(data@));
    Some((GroupId(id), body))
}

/// Routes one inbound transport message: a leave goes to both sides of every active
/// group; any other message is split into group and body and goes to the local side,
/// the layer side, or nowhere.
pub fn route_inbound<S>(registry: &GroupRegistry, msg: TransportEvent<S>) -> (out: Vec<ReceiveMessage<S>>)
    ensures
        inbound_routed(registry@, msg, out@),
{
    let mut out: Vec<ReceiveMessage<S>> = Vec::new();
    match msg {
        TransportEvent::StableLeave(peer) => {
            let n = registry.len();
            let mut i: usize = 0;
            while i < n
                invariant
                    i <= n,
                    n == registry@.len(),
                    out@.len() == 2 * i,
                    forall|j: int| 0 <= j < i ==> is_group_leave(#[trigger] out@[2 * j], registry@[j], peer),
                    forall|j: int| 0 <= j < i ==> is_layer_leave(#[trigger] out@[2 * j + 1], registry@[j], peer),
                decreases n - i,
            {
                let gid = registry.get(i);
                out.push(ReceiveMessage::Group(gid, GroupReceiveMessage::StableLeave(peer)));
                out.push(layer_handle_recv_leave(gid, peer));
                i = i + 1;
            }
            out
        },
        TransportEvent::StableConnect(peer, data) => {
            if let Some((gid, body)) = split_frame(&data) {
                match classify(registry, &gid) {
                    Route::Local => out.push(ReceiveMessage::Group(gid, GroupReceiveMessage::StableConnect(peer, body))),
                    Route::Layer => out.push(layer_handle_recv_connect(gid, peer, body)),
                    Route::Discard => {},
                }
            }
            out
        },
        TransportEvent::StableResult(peer, ok, data) => {
            if let Some((gid, body)) = split_frame(&data) {
                match classify(registry, &gid) {
                    Route::Local => out.push(ReceiveMessage::Group(gid, GroupReceiveMessage::StableResult(peer, ok, body))),
                    Route::Layer => out.push(layer_handle_recv_result(gid, peer, ok, body)),
                    Route::Discard => {},
                }
            }
            out
        },
        TransportEvent::Data(peer, data) => {
            if let Some((gid, body)) = split_frame(&data) {
                match classify(registry, &gid) {
                    Route::Local => out.push(ReceiveMessage::Group(gid, GroupReceiveMessage::Event(peer, body))),
                    Route::Layer => out.push(layer_handle_recv_data(gid, peer, body)),
                    Route::Discard => {},
                }
            }
            out
        },
        TransportEvent::Stream(id, handle, data) => {
            if let Some((gid, body)) = split_frame(&data) {
                match classify(registry, &gid) {
                    Route::Local => out.push(ReceiveMessage::Group(gid, GroupReceiveMessage::Stream(id, handle, body))),
                    Route::Layer => out.push(layer_handle_recv_stream(gid, id, handle, body)),
                    Route::Discard => {},
                }
            }
            out
        },
        TransportEvent::Delivery(kind, tid, ok, data) => {
            if let Some((gid, _body)) = split_frame(&data) {
                match classify(registry, &gid) {
                    Route::Local => out.push(ReceiveMessage::Group(gid, GroupReceiveMessage::Delivery(kind, tid, ok))),
                    Route::Layer => out.push(layer_handle_recv_delivery(gid, kind, tid, ok)),
                    Route::Discard => {},
                }
            }
            out
        },
    }
}

/// A framed message whose payload is shorter than a group identifier reaches neither
/// the local nor the layer side.
pub proof fn lemma_short_payload_discarded<S>(reg: Seq<Seq<u8>>, msg: TransportEvent<S>, out: Seq<ReceiveMessage<S>>)
    requires
        !(msg is StableLeave),
        event_payload(msg).len() < 32,
        inbound_routed(reg, msg, out),
    ensures
        out.len() == 0,
{
}

/// Classification reads the registry each time: right after a group is added its
/// messages are local, and right after it is removed (with other groups left) they
/// go to the layer side.
pub proof fn lemma_membership_toggles(reg: Seq<Seq<u8>>, id: Seq<u8>)
    ensures
        route_of(with_group(reg, id), id) == Route::Local,
        without_group(reg, id).len() > 0 ==> route_of(without_group(reg, id), id) == Route::Layer,
        reg.len() > 0 ==> (route_of(reg, id) == Route::Local <==> reg.contains(id)),
{
    if !reg.contains(id) {
        assert(reg.push(id)[reg.len() as int] == id);
    }
    lemma_remove_all(reg, id);
}

/// A framed data message is local exactly when the registry holds the group its payload
/// names, and otherwise goes to the layer side, with the identifier taken off the payload.
pub proof fn lemma_data_classified<S>(reg: Seq<Seq<u8>>, msg: TransportEvent<S>, out: Seq<ReceiveMessage<S>>)
    requires
        msg is Data,
        reg.len() > 0,
        event_payload(msg).len() >= 32,
        inbound_routed(reg, msg, out),
    ensures
        out.len() == 1,
        reg.contains(frame_id(event_payload(msg))) ==> is_group_event(msg, frame_id(event_payload(msg)), frame_body(event_payload(msg)), out[0]),
        !reg.contains(frame_id(event_payload(msg))) ==> is_layer_event(msg, frame_id(event_payload(msg)), frame_body(event_payload(msg)), out[0]),
{
}

/// Some message of `out` tells the local side of group `id` that `peer` left.
pub open spec fn has_group_leave<S>(out: Seq<ReceiveMessage<S>>, id: Seq<u8>, peer: PeerAddr) -> bool {
    exists|j: int| 0 <= j < out.len() && is_group_leave(#[trigger] out[j], id, peer)
}

/// Some message of `out` tells the layer side of group `id` that `peer` left.
pub open spec fn has_layer_leave<S>(out: Seq<ReceiveMessage<S>>, id: Seq<u8>, peer: PeerAddr) -> bool {
    exists|j: int| 0 <= j < out.len() && is_layer_leave(#[trigger] out[j], id, peer)
}

/// A leave reaches both the local and the layer side of every group in the registry.
pub proof fn lemma_leave_reaches_every_group<S>(reg: Seq<Seq<u8>>, peer: PeerAddr, out: Seq<ReceiveMessage<S>>)
    requires
        inbound_routed(reg, TransportEvent::StableLeave(peer), out),
    ensures
        forall|i: int| 0 <= i < reg.len() ==> has_group_leave(out, #[trigger] reg[i], peer),
        forall|i: int| 0 <= i < reg.len() ==> has_layer_leave(out, #[trigger] reg[i], peer),
{
    assert forall|i: int| 0 <= i < reg.len() implies has_group_leave(out, #[trigger] reg[i], peer) by {
        assert(is_group_leave(out[2 * i], reg[i], peer));
    }
    assert forall|i: int| 0 <= i < reg.len() implies has_layer_leave(out, #[trigger] reg[i], peer) by {
        assert(is_layer_leave(out[2 * i + 1], reg[i], peer));
    }
}

} // verus!
