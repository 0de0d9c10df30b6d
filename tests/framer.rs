use ethos_core::net::client::Payload as ClientPayload;
use ethos_core::net::client::Message as ClientMessage;
use ethos_core::net::message::{read_frame, write_frame};
use ethos_core::net::server::Message as ServerMessage;
use ethos_core::net::server::Payload as ServerPayload;
use ethos_core::net::Error;

const P1_VAL: u8 = u8::MAX / 2;
const P2_VAL: u16 = u16::MAX / 2;
const P3_VAL: u32 = u32::MAX / 2;
const P4_VAL: u64 = u64::MAX / 2;
const P5_VAL: u128 = u128::MAX / 2;
const DISC_VAL: u64 = (u16::MAX / 2 + 2) as u64;
const PACK_BUFFER_SIZE: usize = 128;

/// Trailing fields of a frame with several extras: a timestamp, then one
/// integer of each width.
fn multi_extra() -> Vec<u8> {
    let mut t = Vec::new();
    t.extend_from_slice(&DISC_VAL.to_le_bytes());
    t.extend_from_slice(&P1_VAL.to_le_bytes());
    t.extend_from_slice(&P2_VAL.to_le_bytes());
    t.extend_from_slice(&P3_VAL.to_le_bytes());
    t.extend_from_slice(&P4_VAL.to_le_bytes());
    t.extend_from_slice(&P5_VAL.to_le_bytes());
    t
}

fn key() -> ClientPayload {
    ClientPayload::Key { key: P5_VAL }
}

#[test]
fn v1_message_new() {
    let msg1 = ClientMessage::new(key());
    let msg2 = ServerMessage::new(DISC_VAL, ServerPayload::Error { err: P3_VAL });
    assert_eq!(msg1.size, 18, "msg1 size invalid!");
    assert_eq!(msg2.size, 6 + 8, "msg2 size invalid!");
    let mut buffer = [0u8; PACK_BUFFER_SIZE];
    let written = write_frame(&key(), &multi_extra(), &mut buffer).expect("msg3 packs");
    assert_eq!(written, 2 + 18 + 39, "msg3 size invalid!");
    assert_eq!(u16::from_le_bytes([buffer[0], buffer[1]]), 18 + 39);
    assert_eq!(msg1.payload, key());
    assert_eq!(msg2.timestamp, DISC_VAL);
}

#[test]
fn v2_message_pack_bytes() {
    let mut buffer = [0u8; PACK_BUFFER_SIZE];
    let msg1 = ClientMessage::new(key());
    let msg2 = ServerMessage::new(DISC_VAL, ServerPayload::Error { err: P3_VAL });
    match msg1.pack_bytes(&mut buffer) {
        Ok(size) => assert_eq!(size, msg1.size as usize + 2),
        Err(_) => panic!("msg1.pack_bytes() should not Err!"),
    }
    match msg2.pack_bytes(&mut buffer) {
        Ok(size) => assert_eq!(size, msg2.size as usize + 2),
        Err(_) => panic!("msg2.pack_bytes() should not Err!"),
    }
    match write_frame(&key(), &multi_extra(), &mut buffer) {
        Ok(size) => assert_eq!(size, 18 + 39 + 2),
        Err(_) => panic!("msg3.pack_bytes() should not Err!"),
    }
}

#[test]
fn v3_message_pack_bytes_buffer_too_small() {
    let mut buffer = [0u8; 15];
    let msg1 = ClientMessage::new(key());
    let msg2 = ServerMessage::new(DISC_VAL, ServerPayload::Error { err: P3_VAL });
    assert_eq!(msg1.pack_bytes(&mut buffer), Err(Error::BufferSizeTooSmall));
    assert_eq!(msg2.pack_bytes(&mut buffer), Err(Error::BufferSizeTooSmall));
    let mut buffer = [0u8; 58];
    assert_eq!(
        write_frame(&key(), &multi_extra(), &mut buffer),
        Err(Error::BufferSizeTooSmall)
    );
    assert_eq!(buffer, [0u8; 58]);
}

#[test]
fn v4_message_pack_bytes_from_bytes() {
    let mut buffer = [0u8; PACK_BUFFER_SIZE];
    let ctrl_msg1 = ClientMessage::new(key());
    ctrl_msg1.pack_bytes(&mut buffer).expect("ctrl_msg1 packs");
    assert_eq!(ClientMessage::from_bytes(&buffer), Ok(ctrl_msg1));

    let ctrl_msg2 = ServerMessage::new(DISC_VAL, ServerPayload::Error { err: P3_VAL });
    ctrl_msg2.pack_bytes(&mut buffer).expect("ctrl_msg2 packs");
    assert_eq!(ServerMessage::from_bytes(&buffer), Ok(ctrl_msg2));

    let extra = multi_extra();
    let written = write_frame(&key(), &extra, &mut buffer).expect("ctrl_msg3 packs");
    assert_eq!(read_frame::<ClientPayload>(&buffer, 39, 255), Ok((18 + 39, key())));
    assert_eq!(&buffer[20..written], &extra[..]);
}

#[test]
fn v5_message_from_bytes_invalid_message() {
    let mut buffer = [0u8; PACK_BUFFER_SIZE];
    let msg_invalid = ServerMessage::new(DISC_VAL, ServerPayload::Invalid);
    match msg_invalid.pack_bytes(&mut buffer) {
        Ok(_) => assert_eq!(ServerMessage::from_bytes(&buffer), Err(Error::InvalidMessage)),
        Err(err) => panic!("msg_invalid.pack_bytes() should not Err({:?})!", err),
    }
}

#[test]
fn v6_message_from_bytes_incomplete_message() {
    let mut buffer = [0u8; PACK_BUFFER_SIZE];
    let ctrl_msg1 = ClientMessage::new(key());
    ctrl_msg1.pack_bytes(&mut buffer).expect("ctrl_msg1 packs");
    assert_eq!(ClientMessage::from_bytes(&buffer[..2]), Err(Error::IncompleteMessage));

    let ctrl_msg2 = ServerMessage::new(DISC_VAL, ServerPayload::Error { err: P3_VAL });
    let size = ctrl_msg2.pack_bytes(&mut buffer).expect("ctrl_msg2 packs");
    assert_eq!(
        ServerMessage::from_bytes(&buffer[..(size / 2)]),
        Err(Error::IncompleteMessage)
    );

    let size = write_frame(&key(), &multi_extra(), &mut buffer).expect("ctrl_msg3 packs");
    assert_eq!(
        read_frame::<ClientPayload>(&buffer[..(size / 2)], 39, 255),
        Err(Error::IncompleteMessage)
    );
}

#[test]
fn v7_message_from_bytes_size_invalid() {
    let mut buffer = [0u8; PACK_BUFFER_SIZE];
    let ctrl_msg1 = ClientMessage::new(key());
    let size = ctrl_msg1.pack_bytes(&mut buffer).expect("ctrl_msg1 packs");
    buffer[..2].copy_from_slice(&((size - 1) as u16).to_le_bytes());
    assert_eq!(ClientMessage::from_bytes(&buffer), Err(Error::MessageSizeInvalid));

    let ctrl_msg2 = ServerMessage::new(DISC_VAL, ServerPayload::Error { err: P3_VAL });
    ctrl_msg2.pack_bytes(&mut buffer).expect("ctrl_msg2 packs");
    buffer[..2].copy_from_slice(&0u16.to_le_bytes());
    assert_eq!(ServerMessage::from_bytes(&buffer), Err(Error::MessageSizeInvalid));

    let size = write_frame(&key(), &multi_extra(), &mut buffer).expect("ctrl_msg3 packs");
    buffer[..2].copy_from_slice(&((size / 2) as u16).to_le_bytes());
    assert_eq!(
        read_frame::<ClientPayload>(&buffer, 39, 255),
        Err(Error::MessageSizeInvalid)
    );
}

#[test]
fn v8_message_from_bytes_greater_than_limit() {
    let mut buffer = [0u8; PACK_BUFFER_SIZE];
    let msg_small = ServerMessage::new(DISC_VAL, ServerPayload::Error { err: P3_VAL });
    match msg_small.pack_bytes(&mut buffer) {
        Ok(_) => assert_eq!(
            read_frame::<ServerPayload>(&buffer, 8, 9),
            Err(Error::MessageSizeGreaterThanLimit)
        ),
        Err(err) => panic!("msg_small.pack_bytes() should not Err({:?})!", err),
    }
    assert_eq!(
        read_frame::<ServerPayload>(&buffer, 8, 14),
        Ok((14, ServerPayload::Error { err: P3_VAL }))
    );
}

#[test]
fn msg_test() {
    let msg = ServerMessage::new(1, ServerPayload::Error { err: 2 });
    let mut buffer = [0u8; 16];
    assert_eq!(msg.pack_bytes(&mut buffer), Ok(16));
    assert_eq!(ServerMessage::from_bytes(&buffer), Ok(msg));
}

#[test]
fn frame_limit_applies_to_size_with_trailing() {
    let mut buffer = [0u8; 64];
    let extra = vec![9u8; 4];
    write_frame(&key(), &extra, &mut buffer).expect("packs");
    assert_eq!(read_frame::<ClientPayload>(&buffer, 4, 22), Ok((22, key())));
    assert_eq!(
        read_frame::<ClientPayload>(&buffer, 4, 21),
        Err(Error::MessageSizeGreaterThanLimit)
    );
    assert_eq!(
        read_frame::<ClientPayload>(&buffer[..5], 4, 21),
        Err(Error::MessageSizeGreaterThanLimit)
    );
}
