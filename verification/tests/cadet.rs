use gnunet::cadet::{
    Channel, ChannelMessagePayload, ChannelState, Dispatch, Handle, Received, FIRST_CHANNEL_ID,
    MESSAGE_TYPE_CADET_LOCAL_ACK, MESSAGE_TYPE_CADET_LOCAL_CHANNEL_DESTROY,
    MESSAGE_TYPE_CADET_LOCAL_DATA, PRIORITY_PREFERENCES_MASK, PRIORITY_PREFERENCES_OUT_OF_ORDER,
};
use gnunet::crypto::HashCode;
use gnunet::error::Error;
use gnunet::identity::{KeyType, PublicKey, MESSAGE_TYPE_IDENTITY_RESULT_CODE};
use gnunet::service::{MessageHeader, Stream};
use std::io::ErrorKind;

fn dest() -> PublicKey {
    PublicKey::new(KeyType::Eddsa, [0xd5; 32])
}

fn port() -> HashCode {
    let mut bits = [0u32; 16];
    bits[0] = 0x0403_0201;
    HashCode::from_inner(bits)
}

fn ack(id: u32) -> Vec<u8> {
    let mut s = Stream::new();
    s.write_message(MESSAGE_TYPE_CADET_LOCAL_ACK, &id.to_be_bytes()).unwrap();
    s.to_bytes()
}

fn destroy(id: u32) -> Vec<u8> {
    let mut s = Stream::new();
    s.write_message(MESSAGE_TYPE_CADET_LOCAL_CHANNEL_DESTROY, &id.to_be_bytes()).unwrap();
    s.to_bytes()
}

fn data(id: u32, priority: u32, payload: &[u8]) -> Vec<u8> {
    let mut body = id.to_be_bytes().to_vec();
    body.extend_from_slice(&priority.to_be_bytes());
    body.extend_from_slice(payload);
    let mut s = Stream::new();
    s.write_message(MESSAGE_TYPE_CADET_LOCAL_DATA, &body).unwrap();
    s.to_bytes()
}

/// The reader: takes every message that the daemon sent and hands it to the multiplexer.
fn read_all(handle: &mut Handle, sent: Vec<u8>) -> Vec<Dispatch> {
    let mut wire = Stream::from_bytes(sent);
    let mut done = Vec::new();
    while wire.remaining() > 0 && handle.is_running() {
        let header = wire.read_header().unwrap();
        done.push(handle.dispatch(header, &mut wire).unwrap());
    }
    done
}

/// Opens a channel against a daemon that acknowledges it.
fn open(handle: &mut Handle) -> Channel {
    let mut out = Stream::new();
    let id = handle.channel_connect(&mut out, &dest(), &port());
    read_all(handle, ack(id));
    handle.poll_connect(id).0.unwrap().unwrap()
}

fn payload(r: Received) -> ChannelMessagePayload {
    match r {
        Received::Payload(p) => p,
        other => panic!("unexpected: {:?}", other),
    }
}

#[test]
fn priorities() {
    assert_eq!(PRIORITY_PREFERENCES_MASK, 3);
    assert_eq!(PRIORITY_PREFERENCES_OUT_OF_ORDER, 256);
}

#[test]
fn ids_are_the_lowest_that_are_free() {
    let mut h = Handle::new();
    assert!(h.has_free_channel());
    assert_eq!(h.next_free_channel(), 0x8000_0001);
    assert_eq!(h.next_free_channel(), 0x8000_0002);
    assert_eq!(h.next_free_channel(), 0x8000_0003);
    assert!(h.contains(0x8000_0002));
    assert!(!h.contains(0x8000_0004));
    assert!(!h.contains(1));
}

#[test]
fn an_id_that_was_given_up_is_taken_again() {
    let mut h = Handle::new();
    let a = open(&mut h);
    let b = open(&mut h);
    let c = open(&mut h);
    assert_eq!((a.id(), b.id(), c.id()), (FIRST_CHANNEL_ID, FIRST_CHANNEL_ID + 1, FIRST_CHANNEL_ID + 2));
    let mut out = Stream::new();
    b.destroy(&mut h, &mut out);
    assert_eq!(out.to_bytes(), vec![0, 8, 0x04, 0x01, 0x80, 0, 0, 2]);
    assert!(!h.contains(b.id()));
    assert_eq!(h.next_free_channel(), FIRST_CHANNEL_ID + 1);
    assert_eq!(h.next_free_channel(), FIRST_CHANNEL_ID + 3);
    a.destroy(&mut h, &mut out);
    assert_eq!(h.next_free_channel(), FIRST_CHANNEL_ID);
}

#[test]
fn connect_request_on_the_wire() {
    let mut h = Handle::new();
    let mut out = Stream::new();
    let id = h.channel_connect(&mut out, &dest(), &port());
    assert_eq!(id, 0x8000_0001);
    let bytes = out.to_bytes();
    assert_eq!(bytes.len(), 108);
    assert_eq!(&bytes[0..4], &[0, 108, 0x04, 0x00]);
    assert_eq!(&bytes[4..8], &[0x80, 0, 0, 1]);
    assert_eq!(&bytes[8..40], &[0xd5u8; 32][..]);
    assert_eq!(&bytes[40..44], &[1, 2, 3, 4]);
    assert_eq!(&bytes[44..104], &[0u8; 60][..]);
    assert_eq!(&bytes[104..108], &[0, 0, 0, 0]);
    assert!(h.contains(id));
}

#[test]
fn channel_open() {
    let mut h = Handle::new();
    let mut out = Stream::new();
    let id = h.channel_connect(&mut out, &dest(), &port());
    assert!(matches!(h.poll_connect(id), (None, 0)));
    let done = read_all(&mut h, ack(id));
    assert!(matches!(done[..], [Dispatch::Delivered(i)] if i == id));
    let (answer, dropped) = h.poll_connect(id);
    assert_eq!(dropped, 0);
    let channel = answer.unwrap().unwrap();
    assert_eq!(channel.id(), id);
    assert_eq!(channel.receiver().id(), id);

    read_all(&mut h, data(id, 7, &[1, 2, 3]));
    let p = payload(channel.receiver().receive(&mut h));
    assert_eq!(p, ChannelMessagePayload { priority_flags: 7, payload: vec![1, 2, 3] });
    assert!(matches!(channel.clone_receiver().receive(&mut h), Received::Empty));
}

#[test]
fn premature_destroy() {
    let mut h = Handle::new();
    let mut out = Stream::new();
    let id = h.channel_connect(&mut out, &dest(), &port());
    read_all(&mut h, destroy(id));
    match h.poll_connect(id) {
        (Some(Err(Error::Io(e))), 0) => assert_eq!(e.kind(), ErrorKind::ConnectionReset),
        other => panic!("unexpected: {:?}", other),
    }
    assert!(!h.contains(id));
    assert!(matches!(h.poll_connect(id), (None, 0)));
}

#[test]
fn data_before_the_acknowledgement_is_dropped() {
    let mut h = Handle::new();
    let mut out = Stream::new();
    let id = h.channel_connect(&mut out, &dest(), &port());
    let mut sent = data(id, 0, &[9]);
    sent.extend(data(id, 0, &[8]));
    read_all(&mut h, sent);
    assert!(matches!(h.poll_connect(id), (None, 2)));
    let mut sent = data(id, 0, &[7]);
    sent.extend(ack(id));
    sent.extend(data(id, 1, &[6]));
    read_all(&mut h, sent);
    let (answer, dropped) = h.poll_connect(id);
    assert_eq!(dropped, 1);
    let channel = answer.unwrap().unwrap();
    let p = payload(channel.receiver().receive(&mut h));
    assert_eq!(p, ChannelMessagePayload { priority_flags: 1, payload: vec![6] });
}

#[test]
fn channel_destroy_mid_stream() {
    let mut h = Handle::new();
    let channel = open(&mut h);
    let id = channel.id();
    let mut sent = data(id, 0, &[1]);
    sent.extend(data(id, 0, &[2, 2]));
    sent.extend(destroy(id));
    read_all(&mut h, sent);
    let rx = channel.clone_receiver();
    assert_eq!(payload(rx.receive(&mut h)).payload, vec![1]);
    assert_eq!(payload(rx.receive(&mut h)).payload, vec![2, 2]);
    assert!(matches!(rx.receive(&mut h), Received::Destroyed));
    assert!(!h.contains(id));
    assert!(matches!(rx.receive(&mut h), Received::Empty));
}

#[test]
fn interleaved_channels_keep_their_order() {
    let mut h = Handle::new();
    let a = open(&mut h);
    let b = open(&mut h);
    let mut sent = Vec::new();
    for i in 0..20u8 {
        if i % 3 == 0 {
            sent.extend(data(a.id(), 0, &[i]));
        } else {
            sent.extend(data(b.id(), 0, &[i]));
        }
        sent.extend(data(0x9000_0000, 0, &[i]));
    }
    read_all(&mut h, sent);
    let mut got_a = Vec::new();
    while let Received::Payload(p) = a.receiver().receive(&mut h) {
        got_a.push(p.payload[0]);
    }
    let mut got_b = Vec::new();
    while let Received::Payload(p) = b.receiver().receive(&mut h) {
        got_b.push(p.payload[0]);
    }
    assert_eq!(got_a, vec![0, 3, 6, 9, 12, 15, 18]);
    assert_eq!(got_b, vec![1, 2, 4, 5, 7, 8, 10, 11, 13, 14, 16, 17, 19]);
}

#[test]
fn messages_for_channels_that_are_not_in_use_are_dropped() {
    let mut h = Handle::new();
    let mut sent = ack(0x8000_0005);
    sent.extend(data(0x8000_0005, 0, &[1]));
    sent.extend(destroy(0x8000_0005));
    let done = read_all(&mut h, sent);
    assert!(matches!(
        done[..],
        [Dispatch::Unknown(0x8000_0005), Dispatch::Unknown(0x8000_0005), Dispatch::Unknown(0x8000_0005)]
    ));
    assert!(!h.contains(0x8000_0005));
}

#[test]
fn verdicts_and_unknown_messages() {
    let mut h = Handle::new();
    let mut sent = Stream::new();
    sent.write_message(MESSAGE_TYPE_IDENTITY_RESULT_CODE, &[0, 0, 0, 9, b'n', b'o', 0]).unwrap();
    sent.write_message(MESSAGE_TYPE_IDENTITY_RESULT_CODE, &[0, 0, 0, 0]).unwrap();
    sent.write_header(4711, 4);
    let done = read_all(&mut h, sent.to_bytes());
    assert_eq!(done.len(), 3);
    match &done[0] {
        Dispatch::Failed(e) => {
            assert_eq!(e.code, 9);
            assert_eq!(e.msg, "no");
        }
        other => panic!("unexpected: {:?}", other),
    }
    assert!(matches!(done[1], Dispatch::Nothing));
    assert!(matches!(done[2], Dispatch::Unexpected(4711)));
}

#[test]
fn messages_that_cannot_be_read() {
    let mut h = Handle::new();
    let id = h.next_free_channel();
    let mut wire = Stream::from_bytes(vec![0x80, 0, 0]);
    let header = MessageHeader { size: 8, type_: MESSAGE_TYPE_CADET_LOCAL_ACK };
    let e = h.dispatch(header, &mut wire).unwrap_err();
    assert_eq!(e.io_kind(), Some(ErrorKind::UnexpectedEof));
    assert_eq!(wire.remaining(), 3);

    let mut wire = Stream::from_bytes(id.to_be_bytes().to_vec());
    let header = MessageHeader { size: 11, type_: MESSAGE_TYPE_CADET_LOCAL_DATA };
    let e = h.dispatch(header, &mut wire).unwrap_err();
    assert_eq!(e.io_kind(), Some(ErrorKind::InvalidData));

    let header = MessageHeader { size: 13, type_: MESSAGE_TYPE_CADET_LOCAL_DATA };
    let e = h.dispatch(header, &mut wire).unwrap_err();
    assert_eq!(e.io_kind(), Some(ErrorKind::UnexpectedEof));
    assert_eq!(wire.remaining(), 4);
    assert!(matches!(h.poll_connect(id), (None, 0)));
}

#[test]
fn data_without_payload() {
    let mut h = Handle::new();
    let channel = open(&mut h);
    read_all(&mut h, data(channel.id(), 0x100, &[]));
    let p = payload(channel.receiver().receive(&mut h));
    assert_eq!(p, ChannelMessagePayload { priority_flags: 0x100, payload: vec![] });
}

#[test]
fn send_on_the_wire() {
    let mut h = Handle::new();
    let channel = open(&mut h);
    let mut out = Stream::new();
    channel.send(&mut out, 2, &[0xca, 0xfe]).unwrap();
    assert_eq!(
        out.to_bytes(),
        vec![0, 14, 0x03, 0xfc, 0x80, 0, 0, 1, 0, 0, 0, 2, 0xca, 0xfe]
    );
    let mut out = Stream::new();
    let e = channel.send(&mut out, 2, &vec![0u8; 65524]).unwrap_err();
    assert_eq!(e.io_kind(), Some(ErrorKind::InvalidInput));
    assert_eq!(out.remaining(), 0);
    channel.send(&mut out, 2, &vec![0u8; 65523]).unwrap();
    assert_eq!(out.remaining(), 65535);
}

#[test]
fn acknowledgement_at_the_front_is_seen() {
    let mut h = Handle::new();
    let channel = open(&mut h);
    assert!(!h.has_ack_next(channel.id()));
    read_all(&mut h, ack(channel.id()));
    assert!(h.has_ack_next(channel.id()));
    assert!(!h.has_ack_next(0x8000_0009));
}

#[test]
fn reader_stops_when_told() {
    let mut h = Handle::new();
    assert!(h.is_running());
    let channel = open(&mut h);
    h.stop();
    assert!(!h.is_running());
    let done = read_all(&mut h, data(channel.id(), 0, &[1]));
    assert!(done.is_empty());
    assert!(h.contains(channel.id()));
}

#[test]
fn channel_goes_from_pending_to_open_to_destroyed() {
    let mut h = Handle::new();
    let mut out = Stream::new();
    assert_eq!(h.state(FIRST_CHANNEL_ID), ChannelState::Destroyed);
    let id = h.channel_connect(&mut out, &dest(), &port());
    assert_eq!(h.state(id), ChannelState::Pending);
    read_all(&mut h, ack(id));
    assert_eq!(h.state(id), ChannelState::Pending);
    let channel = h.poll_connect(id).0.unwrap().unwrap();
    assert_eq!(h.state(id), ChannelState::Open);
    read_all(&mut h, destroy(id));
    assert_eq!(h.state(id), ChannelState::Open);
    assert!(matches!(channel.receiver().receive(&mut h), Received::Destroyed));
    assert_eq!(h.state(id), ChannelState::Destroyed);

    let other = open(&mut h);
    assert_eq!(other.id(), id);
    other.destroy(&mut h, &mut out);
    assert_eq!(h.state(id), ChannelState::Destroyed);
}

#[test]
fn an_open_channel_is_not_opened_again() {
    let mut h = Handle::new();
    let channel = open(&mut h);
    let mut sent = data(channel.id(), 0, &[1]);
    sent.extend(ack(channel.id()));
    read_all(&mut h, sent);
    assert!(matches!(h.poll_connect(channel.id()), (None, 0)));
    assert_eq!(payload(channel.receiver().receive(&mut h)).payload, vec![1]);
    assert!(h.has_ack_next(channel.id()));
}

#[test]
fn a_pending_channel_receives_nothing() {
    let mut h = Handle::new();
    let old = open(&mut h);
    let stale = old.clone_receiver();
    let mut out = Stream::new();
    old.destroy(&mut h, &mut out);
    let id = h.channel_connect(&mut out, &dest(), &port());
    assert_eq!(id, stale.id());
    let mut sent = data(id, 0, &[1]);
    sent.extend(ack(id));
    read_all(&mut h, sent);
    assert!(matches!(stale.receive(&mut h), Received::Empty));
    assert!(matches!(h.poll_connect(id), (Some(Ok(_)), 1)));
}

#[test]
fn pump_takes_every_whole_message() {
    let mut h = Handle::new();
    let a = open(&mut h);
    let b = open(&mut h);
    let mut sent = data(a.id(), 1, &[1]);
    sent.extend(data(b.id(), 2, &[2]));
    sent.extend(ack(0x8000_0007));
    sent.extend(data(a.id(), 3, &[3]));
    let partial = data(b.id(), 4, &[4, 4, 4]);
    sent.extend(&partial[..9]);

    let mut wire = Stream::from_bytes(sent);
    let mut done = vec![Dispatch::Nothing];
    h.pump(&mut wire, &mut done).unwrap();
    assert_eq!(done.len(), 5);
    assert!(matches!(
        done[..],
        [
            Dispatch::Nothing,
            Dispatch::Delivered(x),
            Dispatch::Delivered(y),
            Dispatch::Unknown(0x8000_0007),
            Dispatch::Delivered(z)
        ] if x == a.id() && y == b.id() && z == a.id()
    ));
    assert_eq!(wire.to_bytes(), partial[..9].to_vec());

    wire.write(&partial[9..]);
    h.pump(&mut wire, &mut done).unwrap();
    assert_eq!(done.len(), 6);
    assert_eq!(wire.remaining(), 0);
    assert_eq!(payload(a.receiver().receive(&mut h)).payload, vec![1]);
    assert_eq!(payload(a.receiver().receive(&mut h)).payload, vec![3]);
    assert_eq!(payload(b.receiver().receive(&mut h)).payload, vec![2]);
    assert_eq!(payload(b.receiver().receive(&mut h)).payload, vec![4, 4, 4]);
}

#[test]
fn pump_stops_at_a_message_that_cannot_be_read() {
    let mut h = Handle::new();
    let a = open(&mut h);
    let mut sent = data(a.id(), 1, &[1]);
    let mut bad = Stream::new();
    bad.write_message(MESSAGE_TYPE_CADET_LOCAL_ACK, &[0x80, 0]).unwrap();
    sent.extend(bad.to_bytes());
    sent.extend(data(a.id(), 2, &[2]));
    let mut wire = Stream::from_bytes(sent);
    let mut done = Vec::new();
    let e = h.pump(&mut wire, &mut done).unwrap_err();
    assert_eq!(e.io_kind(), Some(ErrorKind::InvalidData));
    assert_eq!(done.len(), 1);
    assert_eq!(wire.to_bytes(), data(a.id(), 2, &[2]));
    assert_eq!(payload(a.receiver().receive(&mut h)).payload, vec![1]);
    assert!(matches!(a.receiver().receive(&mut h), Received::Empty));
}

#[test]
fn pump_refuses_a_header_that_is_none() {
    let mut h = Handle::new();
    let mut wire = Stream::from_bytes(vec![0, 3, 0x03, 0xfc, 1, 2, 3]);
    let mut done = Vec::new();
    let e = h.pump(&mut wire, &mut done).unwrap_err();
    assert_eq!(e.io_kind(), Some(ErrorKind::InvalidData));
    assert!(done.is_empty());
    assert_eq!(wire.remaining(), 7);
}

#[test]
fn pump_of_a_reader_that_was_stopped() {
    let mut h = Handle::new();
    let a = open(&mut h);
    h.stop();
    let mut wire = Stream::from_bytes(data(a.id(), 1, &[1]));
    let mut done = Vec::new();
    h.pump(&mut wire, &mut done).unwrap();
    assert!(done.is_empty());
    assert_eq!(wire.remaining(), 13);
}

#[test]
fn pump_of_nothing() {
    let mut h = Handle::new();
    let mut wire = Stream::new();
    let mut done = Vec::new();
    h.pump(&mut wire, &mut done).unwrap();
    assert!(done.is_empty());
    let mut wire = Stream::from_bytes(vec![0, 13, 3]);
    h.pump(&mut wire, &mut done).unwrap();
    assert_eq!(wire.remaining(), 3);
}

#[test]
fn every_message_is_taken_whole() {
    let mut h = Handle::new();
    let a = open(&mut h);
    let mut sent = Stream::new();
    sent.write_message(4711, &[9, 9, 9]).unwrap();
    let mut long_ack = a.id().to_be_bytes().to_vec();
    long_ack.extend_from_slice(&[7, 7]);
    sent.write_message(MESSAGE_TYPE_CADET_LOCAL_ACK, &long_ack).unwrap();
    sent.write_message(MESSAGE_TYPE_IDENTITY_RESULT_CODE, &[0, 0, 0, 0, b'o', b'k', 0]).unwrap();
    sent.write_message(MESSAGE_TYPE_IDENTITY_RESULT_CODE, &[0, 0, 0, 2, b'n', b'o', 0]).unwrap();
    let mut wire = sent.to_bytes();
    wire.extend(data(a.id(), 5, &[1, 2]));
    let done = read_all(&mut h, wire);
    assert_eq!(done.len(), 5);
    assert!(matches!(done[0], Dispatch::Unexpected(4711)));
    assert!(matches!(done[1], Dispatch::Delivered(id) if id == a.id()));
    assert!(matches!(done[2], Dispatch::Nothing));
    assert!(matches!(&done[3], Dispatch::Failed(e) if e.code == 2 && e.msg == "no"));
    assert!(matches!(done[4], Dispatch::Delivered(id) if id == a.id()));
    assert!(h.has_ack_next(a.id()));
}

#[test]
fn headers_that_are_too_small_for_their_type() {
    let mut h = Handle::new();
    let mut wire = Stream::from_bytes(vec![0x80, 0, 0, 1, 0, 0, 0, 0]);
    for (type_, size) in [
        (MESSAGE_TYPE_CADET_LOCAL_ACK, 7),
        (MESSAGE_TYPE_CADET_LOCAL_CHANNEL_DESTROY, 4),
        (MESSAGE_TYPE_CADET_LOCAL_DATA, 11),
        (MESSAGE_TYPE_IDENTITY_RESULT_CODE, 7),
        (4711, 3),
    ] {
        let e = h.dispatch(MessageHeader { size, type_ }, &mut wire).unwrap_err();
        assert_eq!(e.io_kind(), Some(ErrorKind::InvalidData));
        assert_eq!(wire.remaining(), 8);
    }
    let e = h.dispatch(MessageHeader { size: 13, type_: 4711 }, &mut wire).unwrap_err();
    assert_eq!(e.io_kind(), Some(ErrorKind::UnexpectedEof));
    assert_eq!(wire.remaining(), 8);
    assert!(matches!(
        h.dispatch(MessageHeader { size: 12, type_: 4711 }, &mut wire),
        Ok(Dispatch::Unexpected(4711))
    ));
    assert_eq!(wire.remaining(), 0);
}

#[test]
fn a_pending_channel_is_abandoned() {
    let mut h = Handle::new();
    let mut out = Stream::new();
    let a = open(&mut h);
    let id = h.channel_connect(&mut out, &dest(), &port());
    read_all(&mut h, data(id, 0, &[1]));
    assert!(!h.abandon(a.id()));
    assert!(!h.abandon(0x8000_0009));
    assert_eq!(h.state(a.id()), ChannelState::Open);
    assert!(h.abandon(id));
    assert_eq!(h.state(id), ChannelState::Destroyed);
    assert!(!h.abandon(id));
    assert_eq!(h.next_free_channel(), id);
}
