use vstd::prelude::*;

use crate::group_id::GroupId;

verus! {

/// Address of a peer on the transport.
#[derive(Clone, Copy, Debug, PartialEq, Eq, Hash)]
pub struct PeerAddr(pub [u8; 32]);

/// Which kind of outbound message a delivery acknowledgement refers to.
#[derive(Clone, Copy, Debug, PartialEq, Eq, Structural)]
pub enum DeliveryKind {
    StableConnect,
    StableResult,
    Data,
}

/// A message arriving from the transport; `S` is the transport's stream handle.
/// Every variant but `StableLeave` carries a payload whose first 32 bytes name a group.
#[derive(Debug)]
pub enum TransportEvent<S> {
    StableConnect(PeerAddr, Vec<u8>),
    StableResult(PeerAddr, bool, Vec<u8>),
    StableLeave(PeerAddr),
    Data(PeerAddr, Vec<u8>),
    Stream(u32, S, Vec<u8>),
    Delivery(DeliveryKind, u64, bool, Vec<u8>),
}

/// An inbound event for a group active on this node.
#[derive(Debug)]
pub enum GroupReceiveMessage<S> {
    StableConnect(PeerAddr, Vec<u8>),
    StableResult(PeerAddr, bool, Vec<u8>),
    StableLeave(PeerAddr),
    Event(PeerAddr, Vec<u8>),
    Stream(u32, S, Vec<u8>),
    Delivery(DeliveryKind, u64, bool),
}

/// An inbound event for a group that is not active on this node.
#[derive(Debug)]
pub enum LayerReceiveMessage<S> {
    Connect(PeerAddr, Vec<u8>),
    Result(PeerAddr, bool, Vec<u8>),
    Leave(PeerAddr),
    Event(PeerAddr, Vec<u8>),
    Stream(u32, S, Vec<u8>),
    Delivery(DeliveryKind, u64, bool),
}

/// What the application receives, tagged by the group it concerns.
#[derive(Debug)]
pub enum ReceiveMessage<S> {
    Group(GroupId, GroupReceiveMessage<S>),
    Layer(GroupId, LayerReceiveMessage<S>),
}

/// A message for the transport; `S` is a stream handle, `Q` a state query,
/// `B` a broadcast mode.
#[derive(Debug)]
pub enum TransportSend<S, Q, B> {
    StableConnect(u64, PeerAddr, Option<String>, Vec<u8>),
    StableDisconnect(PeerAddr),
    StableResult(u64, PeerAddr, bool, bool, Vec<u8>),
    Data(u64, PeerAddr, Vec<u8>),
    Stream(u32, S),
    Broadcast(B, Vec<u8>),
    Connect(String),
    DisConnect(String),
    NetworkState(Q),
}

/// An outbound message addressed to a group.
#[derive(Debug)]
pub enum GroupSendMessage<S> {
    StableConnect(u64, PeerAddr, Option<String>, Vec<u8>),
    StableDisconnect(PeerAddr),
    StableResult(u64, PeerAddr, bool, bool, Vec<u8>),
    Event(u64, PeerAddr, Vec<u8>),
    Stream(u32, S),
}

/// An outbound message addressed to a foreign group.
#[derive(Debug)]
pub enum LayerSendMessage<S> {
    Connect(u64, PeerAddr, Option<String>, Vec<u8>),
    Disconnect(PeerAddr),
    Result(u64, PeerAddr, bool, bool, Vec<u8>),
    Event(u64, PeerAddr, Vec<u8>),
    Stream(u32, S),
}

/// A network control command.
#[derive(Debug)]
pub enum NetworkType<Q, B> {
    Broadcast(B, Vec<u8>),
    Connect(String),
    DisConnect(String),
    NetworkState(Q),
}

/// A request for the RPC service: correlation id, parameters as JSON text, websocket flag.
#[derive(Debug)]
pub struct RpcSendMessage(pub u64, pub String, pub bool);

/// A message from the application.
#[derive(Debug)]
pub enum SendMessage<S, Q, B> {
    /// To a group: the explicit target in multi-group mode; ignored in single-group mode,
    /// where the default group is the target.
    Group(GroupId, GroupSendMessage<S>),
    /// To a foreign group.
    Layer(GroupId, LayerSendMessage<S>),
    Rpc(u64, String, bool),
    Network(NetworkType<Q, B>),
    AddGroup(GroupId),
    DelGroup(GroupId),
}

} // verus!
