use tdn::error::Error;
use tdn::group_id::GroupId;
use tdn::inbound::{classify, route_inbound, split_frame, Route};
use tdn::message::{
    DeliveryKind, GroupReceiveMessage, GroupSendMessage, LayerReceiveMessage, LayerSendMessage,
    NetworkType, PeerAddr, ReceiveMessage, SendMessage, TransportEvent, TransportSend,
};
use tdn::outbound::{frame_broadcast, handle_send, Dispatch, OperatingMode};
use tdn::registry::GroupRegistry;

type Send = SendMessage<(), (), u8>;

fn gid(b: u8) -> GroupId {
    GroupId([b; 32])
}

fn peer() -> PeerAddr {
    PeerAddr([9u8; 32])
}

fn framed(id: &GroupId, body: &[u8]) -> Vec<u8> {
    let mut v = id.0.to_vec();
    v.extend_from_slice(body);
    v
}

fn registry_of(ids: &[GroupId]) -> GroupRegistry {
    GroupRegistry::from_groups(ids.to_vec())
}

fn ids_of(r: &GroupRegistry) -> Vec<GroupId> {
    (0..r.len()).map(|i| r.get(i)).collect()
}

#[test]
fn hex_round_trip_lowercase() {
    let s = "00ff10a0b1c2d3e4f5061728394a5b6c7d8e9fa0b1c2d3e4f5061728394a5b6c";
    let g = GroupId::from_hex(s).unwrap();
    assert_eq!(g.0[0], 0x00);
    assert_eq!(g.0[1], 0xff);
    assert_eq!(g.0[2], 0x10);
    assert_eq!(g.to_hex(), s);
}

#[test]
fn hex_uppercase_parses_and_prints_lowercase() {
    let s = "ABCDEF0123456789abcdef0123456789ABCDEF0123456789abcdef0123456789";
    let g = GroupId::from_hex(s).unwrap();
    assert_eq!(g.0[0], 0xab);
    assert_eq!(g.to_hex(), s.to_lowercase());
}

#[test]
fn hex_wrong_length_fails() {
    assert_eq!(GroupId::from_hex("").unwrap_err(), Error::Hex);
    assert_eq!(GroupId::from_hex(&"0".repeat(63)).unwrap_err(), Error::Hex);
    assert_eq!(GroupId::from_hex(&"0".repeat(65)).unwrap_err(), Error::Hex);
}

#[test]
fn hex_bad_digit_fails() {
    let mut s = "0".repeat(63);
    s.push('g');
    assert_eq!(GroupId::from_hex(&s).unwrap_err(), Error::Hex);
    let mut t = "0".repeat(62);
    t.push_str("+f");
    assert_eq!(GroupId::from_hex(&t).unwrap_err(), Error::Hex);
    let u = format!("{}é", "0".repeat(63));
    assert_eq!(GroupId::from_hex(&u).unwrap_err(), Error::Hex);
}

#[test]
fn to_hex_of_default_is_zeros() {
    assert_eq!(GroupId::default().to_hex(), "0".repeat(64));
}

#[test]
fn short_show_form() {
    let s = "0123456789abcdef0123456789abcdef0123456789abcdef0123456789abcdef";
    let g = GroupId::from_hex(s).unwrap();
    assert_eq!(g.short_show(), "0x0123...bcdef");
}

#[test]
fn from_symbol_is_sha3_256() {
    assert_eq!(
        GroupId::from_symbol("").to_hex(),
        "a7ffc6f8bf1ed76651c14756a061d662f580ff4de43b49fa82d80a4b80f8434a"
    );
    assert_eq!(
        GroupId::from_symbol("abc").to_hex(),
        "3a985da74fe225b2045c172d6bd390bd855f086e3e9d525b46bfe24511431532"
    );
}

#[test]
fn from_symbol_is_deterministic() {
    let a = GroupId::from_symbol("chat");
    let b = GroupId::from_symbol("chat");
    let c = GroupId::from_symbol("chat2");
    assert!(a.equals(&b));
    assert!(!a.equals(&c));
}

#[test]
fn registry_add_is_idempotent() {
    let mut r = GroupRegistry::new();
    r.add(gid(1));
    r.add(gid(1));
    assert_eq!(ids_of(&r), vec![gid(1)]);
    r.add(gid(2));
    assert_eq!(ids_of(&r), vec![gid(1), gid(2)]);
}

#[test]
fn registry_remove_takes_all_duplicates() {
    let mut r = registry_of(&[gid(1), gid(2), gid(1), gid(3), gid(1)]);
    r.remove(&gid(1));
    assert_eq!(ids_of(&r), vec![gid(2), gid(3)]);
    assert!(!r.contains(&gid(1)));
}

#[test]
fn registry_default_is_first_entry() {
    assert!(GroupRegistry::new().default_group().is_none());
    let r = registry_of(&[gid(4), gid(5)]);
    assert_eq!(r.default_group(), Some(gid(4)));
}

#[test]
fn split_frame_short_and_exact() {
    assert!(split_frame(&vec![0u8; 31]).is_none());
    let (g, body) = split_frame(&vec![7u8; 32]).unwrap();
    assert_eq!(g, gid(7));
    assert!(body.is_empty());
}

#[test]
fn scenario_local_layer_and_short() {
    let a = gid(0xa);
    let b = gid(0xb);
    let r = registry_of(&[a]);

    let out = route_inbound(&r, TransportEvent::<()>::Data(peer(), framed(&a, &[0x01, 0x02])));
    assert_eq!(out.len(), 1);
    match &out[0] {
        ReceiveMessage::Group(g, GroupReceiveMessage::Event(p, d)) => {
            assert_eq!(*g, a);
            assert_eq!(*p, peer());
            assert_eq!(*d, vec![0x01, 0x02]);
        }
        other => panic!("expected a local event, got {:?}", other),
    }

    let out = route_inbound(&r, TransportEvent::<()>::Data(peer(), framed(&b, &[0x01, 0x02])));
    assert_eq!(out.len(), 1);
    match &out[0] {
        ReceiveMessage::Layer(g, LayerReceiveMessage::Event(p, d)) => {
            assert_eq!(*g, b);
            assert_eq!(*p, peer());
            assert_eq!(*d, vec![0x01, 0x02]);
        }
        other => panic!("expected a layer event, got {:?}", other),
    }

    let out = route_inbound(&r, TransportEvent::<()>::Data(peer(), vec![1u8; 10]));
    assert!(out.is_empty());
}

#[test]
fn short_payloads_are_discarded_on_every_framed_variant() {
    let r = registry_of(&[gid(1)]);
    let short = vec![1u8; 31];
    let events: Vec<TransportEvent<()>> = vec![
        TransportEvent::StableConnect(peer(), short.clone()),
        TransportEvent::StableResult(peer(), true, short.clone()),
        TransportEvent::Data(peer(), short.clone()),
        TransportEvent::Stream(3, (), short.clone()),
        TransportEvent::Delivery(DeliveryKind::Data, 8, true, short.clone()),
    ];
    for e in events {
        assert!(route_inbound(&r, e).is_empty());
    }
}

#[test]
fn empty_registry_discards_framed_messages() {
    let r = GroupRegistry::new();
    let out = route_inbound(&r, TransportEvent::<()>::Data(peer(), framed(&gid(1), &[5])));
    assert!(out.is_empty());
}

#[test]
fn classification_follows_membership() {
    let mut r = registry_of(&[gid(1)]);
    assert_eq!(classify(&r, &gid(2)), Route::Layer);
    r.add(gid(2));
    assert_eq!(classify(&r, &gid(2)), Route::Local);
    r.remove(&gid(2));
    assert_eq!(classify(&r, &gid(2)), Route::Layer);
    r.remove(&gid(1));
    assert_eq!(classify(&r, &gid(2)), Route::Discard);
}

#[test]
fn leave_reaches_every_group_on_both_sides() {
    let r = registry_of(&[gid(1), gid(2)]);
    let out = route_inbound(&r, TransportEvent::<()>::StableLeave(peer()));
    assert_eq!(out.len(), 4);
    for (i, g) in [gid(1), gid(2)].iter().enumerate() {
        match &out[2 * i] {
            ReceiveMessage::Group(x, GroupReceiveMessage::StableLeave(p)) => {
                assert_eq!(x, g);
                assert_eq!(*p, peer());
            }
            other => panic!("expected a local leave, got {:?}", other),
        }
        match &out[2 * i + 1] {
            ReceiveMessage::Layer(x, LayerReceiveMessage::Leave(p)) => {
                assert_eq!(x, g);
                assert_eq!(*p, peer());
            }
            other => panic!("expected a layer leave, got {:?}", other),
        }
    }
}

#[test]
fn inbound_variants_keep_their_fields() {
    let a = gid(1);
    let r = registry_of(&[a]);
    let out = route_inbound(&r, TransportEvent::<()>::StableResult(peer(), false, framed(&a, &[4])));
    assert!(matches!(&out[0], ReceiveMessage::Group(_, GroupReceiveMessage::StableResult(_, false, d)) if *d == vec![4]));
    let out = route_inbound(&r, TransportEvent::<()>::Delivery(DeliveryKind::StableResult, 42, true, framed(&gid(2), &[])));
    assert!(matches!(&out[0], ReceiveMessage::Layer(g, LayerReceiveMessage::Delivery(DeliveryKind::StableResult, 42, true)) if *g == gid(2)));
    let out = route_inbound(&r, TransportEvent::<()>::Stream(5, (), framed(&a, &[6, 7])));
    assert!(matches!(&out[0], ReceiveMessage::Group(_, GroupReceiveMessage::Stream(5, (), d)) if *d == vec![6, 7]));
    let out = route_inbound(&r, TransportEvent::<()>::StableConnect(peer(), framed(&gid(3), &[8])));
    assert!(matches!(&out[0], ReceiveMessage::Layer(_, LayerReceiveMessage::Connect(_, d)) if *d == vec![8]));
}

#[test]
fn broadcast_with_empty_registry_is_dropped() {
    let mut r = GroupRegistry::new();
    let d = handle_send(OperatingMode::Multiple, &mut r, Send::Network(NetworkType::Broadcast(1, vec![3])));
    assert!(matches!(d, Dispatch::Nothing));
}

#[test]
fn broadcast_prepends_default_group() {
    let mut r = registry_of(&[gid(6), gid(7)]);
    let d = handle_send(OperatingMode::Multiple, &mut r, Send::Network(NetworkType::Broadcast(1, vec![3, 4])));
    match d {
        Dispatch::Transport(TransportSend::Broadcast(b, bytes)) => {
            assert_eq!(b, 1);
            assert_eq!(bytes, framed(&gid(6), &[3, 4]));
        }
        other => panic!("expected a broadcast, got {:?}", other),
    }
    assert_eq!(frame_broadcast(&gid(2), vec![9]).len(), 33);
}

#[test]
fn group_send_single_mode_uses_default() {
    let mut r = registry_of(&[gid(1)]);
    let d = handle_send(OperatingMode::Single, &mut r, Send::Group(gid(9), GroupSendMessage::Event(3, peer(), vec![1])));
    assert!(matches!(d, Dispatch::Transport(TransportSend::Data(3, _, ref v)) if *v == vec![1]));
    let mut empty = GroupRegistry::new();
    let d = handle_send(OperatingMode::Single, &mut empty, Send::Group(gid(1), GroupSendMessage::Event(3, peer(), vec![1])));
    assert!(matches!(d, Dispatch::Nothing));
}

#[test]
fn group_send_multiple_mode_needs_active_group() {
    let mut r = registry_of(&[gid(1)]);
    let d = handle_send(OperatingMode::Multiple, &mut r, Send::Group(gid(2), GroupSendMessage::StableDisconnect(peer())));
    assert!(matches!(d, Dispatch::Nothing));
    let d = handle_send(OperatingMode::Multiple, &mut r, Send::Group(gid(1), GroupSendMessage::StableDisconnect(peer())));
    assert!(matches!(d, Dispatch::Transport(TransportSend::StableDisconnect(_))));
}

#[test]
fn layer_send_and_rpc_pass_through() {
    let mut r = GroupRegistry::new();
    let d = handle_send(OperatingMode::Multiple, &mut r, Send::Layer(gid(2), LayerSendMessage::Result(7, peer(), true, false, vec![2])));
    assert!(matches!(d, Dispatch::Transport(TransportSend::StableResult(7, _, true, false, ref v)) if *v == vec![2]));
    let d = handle_send(OperatingMode::Multiple, &mut r, Send::Rpc(11, "{}".to_string(), true));
    match d {
        Dispatch::Rpc(m) => {
            assert_eq!(m.0, 11);
            assert_eq!(m.1, "{}");
            assert!(m.2);
        }
        other => panic!("expected an rpc request, got {:?}", other),
    }
    let d = handle_send(OperatingMode::Multiple, &mut r, Send::Network(NetworkType::Connect("1.2.3.4:7364".to_string())));
    assert!(matches!(d, Dispatch::Transport(TransportSend::Connect(ref a)) if a == "1.2.3.4:7364"));
}

#[test]
fn registry_messages_only_in_multiple_mode() {
    let mut r = registry_of(&[gid(1)]);
    handle_send(OperatingMode::Multiple, &mut r, Send::AddGroup(gid(2)));
    handle_send(OperatingMode::Multiple, &mut r, Send::AddGroup(gid(2)));
    assert_eq!(ids_of(&r), vec![gid(1), gid(2)]);
    handle_send(OperatingMode::Multiple, &mut r, Send::DelGroup(gid(1)));
    assert_eq!(ids_of(&r), vec![gid(2)]);
    let mut s = registry_of(&[gid(1)]);
    handle_send(OperatingMode::Single, &mut s, Send::AddGroup(gid(2)));
    handle_send(OperatingMode::Single, &mut s, Send::DelGroup(gid(1)));
    assert_eq!(ids_of(&s), vec![gid(1)]);
}
