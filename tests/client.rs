use ethos_core::net::client::{Message, Payload, KEY_DISCRIMINANT, PACK_BUFFER_SIZE};
use ethos_core::net::codec::{probe_size, PayloadCodec, ProbeError};
use ethos_core::net::message::read_frame;
use ethos_core::net::{Error, CLIENT_MSG_MAX_SIZE};

const KEY_VAL: u128 = u128::MAX / 2;

fn packed(key: u128) -> (Message, [u8; PACK_BUFFER_SIZE], usize) {
    let msg = Message::new(Payload::Key { key });
    let mut buffer = [0u8; PACK_BUFFER_SIZE];
    let written = msg.pack_bytes(&mut buffer).expect("pack into a large buffer");
    (msg, buffer, written)
}

#[test]
fn mod_message_new() {
    let msg = Message::new(Payload::Key { key: KEY_VAL });
    match msg.payload {
        Payload::Key { key } => assert!(key == KEY_VAL),
        _ => panic!("Wrong payload for test!"),
    }
    assert_eq!(msg.size, 18);
}

#[test]
fn mod_message_pack_bytes() {
    let mut buffer = [0u8; PACK_BUFFER_SIZE];
    let msg = Message::new(Payload::Key { key: KEY_VAL });
    assert_eq!(msg.pack_bytes(&mut buffer), Ok(20));
}

#[test]
fn message_pack_bytes_buffer_too_small() {
    let mut buffer = [0u8; 2];
    let msg = Message::new(Payload::Key { key: KEY_VAL });
    assert_eq!(msg.pack_bytes(&mut buffer), Err(Error::BufferSizeTooSmall));
    assert_eq!(buffer, [0u8; 2]);
}

#[test]
fn message_size_from_bytes_ok() {
    let (_, buffer, _) = packed(KEY_VAL);
    assert_eq!(Message::size_from_bytes(&buffer), Ok(18));
}

#[test]
fn message_size_from_bytes_incomplete() {
    assert_eq!(Message::size_from_bytes(&[18u8]), Err(Error::IncompleteMessage));
    assert_eq!(Message::size_from_bytes(&[]), Err(Error::IncompleteMessage));
}

#[test]
fn message_size_from_bytes_greater_than_limit() {
    let over = (CLIENT_MSG_MAX_SIZE + 1) as u16;
    let bytes = over.to_le_bytes();
    assert_eq!(Message::size_from_bytes(&bytes), Err(Error::MessageSizeGreaterThanLimit));
    let at = (CLIENT_MSG_MAX_SIZE as u16).to_le_bytes();
    assert_eq!(Message::size_from_bytes(&at), Ok(CLIENT_MSG_MAX_SIZE));
}

#[test]
fn mod_message_pack_bytes_from_bytes() {
    let (control, buffer, _) = packed(KEY_VAL);
    match Message::from_bytes(&buffer) {
        Ok(target) => assert_eq!(control, target),
        Err(_) => panic!("packed message should read back"),
    }
}

#[test]
fn mod_message_from_bytes_invalid_message() {
    let bytes = [255u8, 252, 255, 231, 214, 226, 231, 222, 123, 023, 123, 012];
    assert_eq!(Message::from_bytes(&bytes), Err(Error::InvalidMessage));
}

#[test]
fn message_from_bytes_incomplete_message() {
    let (_, buffer, written) = packed(KEY_VAL);
    assert_eq!(Message::from_bytes(&buffer[..2]), Err(Error::IncompleteMessage));
    assert_eq!(Message::from_bytes(&buffer[..written / 2]), Err(Error::IncompleteMessage));
    assert_eq!(Message::from_bytes(&buffer[..written - 1]), Err(Error::IncompleteMessage));
}

#[test]
fn message_from_bytes_size_invalid() {
    let (_, mut buffer, written) = packed(KEY_VAL);
    buffer[..2].copy_from_slice(&((written - 1) as u16).to_le_bytes());
    assert_eq!(Message::from_bytes(&buffer), Err(Error::MessageSizeInvalid));
}

#[test]
fn message_from_bytes_greater_than_limit() {
    let (_, buffer, _) = packed(KEY_VAL);
    assert_eq!(
        read_frame::<Payload>(&buffer, 0, 2),
        Err(Error::MessageSizeGreaterThanLimit)
    );
    assert_eq!(
        read_frame::<Payload>(&buffer, 0, 17),
        Err(Error::MessageSizeGreaterThanLimit)
    );
    assert_eq!(
        read_frame::<Payload>(&buffer, 0, 18),
        Ok((18, Payload::Key { key: KEY_VAL }))
    );
}

#[test]
fn key_frame_scenario() {
    let key: u128 = 170141183460469231731687303715884105727;
    let msg = Message::new(Payload::Key { key });
    assert_eq!(msg.size, 18);
    let mut buffer = [0u8; 20];
    assert_eq!(msg.pack_bytes(&mut buffer), Ok(20));
    assert_eq!(&buffer[..2], &[18u8, 0]);
    assert_eq!(&buffer[2..4], &[0u8, 0]);
    assert_eq!(&buffer[4..], &key.to_le_bytes());
    let back = Message::from_bytes(&buffer).expect("frame reads back");
    assert_eq!(back.size, 18);
    assert_eq!(back.payload.discriminant(), KEY_DISCRIMINANT);
    assert_eq!(back.payload, Payload::Key { key });
}

#[test]
fn client_round_trip_many_keys() {
    for key in [0u128, 1, 255, 256, u64::MAX as u128, u128::MAX - 1, u128::MAX] {
        let (control, buffer, written) = packed(key);
        assert_eq!(Message::from_bytes(&buffer[..written]), Ok(control));
        assert_eq!(Message::from_bytes(&buffer), Ok(control));
    }
}

#[test]
fn client_probe_size_of_frame() {
    for key in [0u128, 7, u128::MAX] {
        let (msg, buffer, written) = packed(key);
        assert_eq!(probe_size::<Payload>(&buffer[2..written], 0), Ok(18));
        assert_eq!(probe_size::<Payload>(&buffer[2..], CLIENT_MSG_MAX_SIZE), Ok(18));
        assert_eq!(msg.size as usize, 18);
    }
}

#[test]
fn client_probe_errors() {
    let (_, buffer, written) = packed(3);
    assert_eq!(probe_size::<Payload>(&buffer[2..3], 0), Err(ProbeError::BufferIncomplete));
    assert_eq!(probe_size::<Payload>(&buffer[2..written - 1], 0), Err(ProbeError::BufferIncomplete));
    assert_eq!(probe_size::<Payload>(&buffer[2..], 17), Err(ProbeError::SizeExceedsLimit));
    assert_eq!(probe_size::<Payload>(&buffer[2..], 1), Err(ProbeError::SizeExceedsLimit));
    assert_eq!(probe_size::<Payload>(&[255u8, 255, 0, 0], 0), Err(ProbeError::BufferIncomplete));
}

#[test]
fn client_unknown_discriminants() {
    for d in [1u16, 2, 0x7fff, 0xfffe, 0xffff] {
        let mut bytes = [0u8; 24];
        bytes[..2].copy_from_slice(&18u16.to_le_bytes());
        bytes[2..4].copy_from_slice(&d.to_le_bytes());
        assert_eq!(Message::from_bytes(&bytes), Err(Error::InvalidMessage));
    }
}

#[test]
fn client_every_prefix_is_incomplete() {
    let (_, buffer, written) = packed(0x0102_0304_0506_0708_090a_0b0c_0d0e_0f10);
    for len in 0..written {
        assert_eq!(Message::from_bytes(&buffer[..len]), Err(Error::IncompleteMessage));
    }
}

#[test]
fn client_every_other_size_is_invalid() {
    let (_, buffer, _) = packed(42);
    for size in 0..=u16::MAX {
        let mut tampered = buffer;
        tampered[..2].copy_from_slice(&size.to_le_bytes());
        let r = Message::from_bytes(&tampered);
        if size == 18 {
            assert!(r.is_ok());
        } else {
            assert_eq!(r, Err(Error::MessageSizeInvalid));
        }
    }
}

#[test]
fn client_payload_codec() {
    let p = Payload::Key { key: 0x1122 };
    assert_eq!(p.bytes_size(), 18);
    assert_eq!(Payload::Invalid.bytes_size(), 2);
    assert_eq!(Payload::size_of_bytes_from_discriminant(5), 0);
    assert!(Payload::is_valid(KEY_DISCRIMINANT));
    assert!(!Payload::is_valid(0xffff));
    let bytes = p.to_le_bytes();
    assert_eq!(bytes.len(), 18);
    assert_eq!(&bytes[..4], &[0u8, 0, 0x22, 0x11]);
    assert_eq!(Payload::deserialize(&bytes), (p, 18));
    assert_eq!(Payload::deserialize(&[255u8, 254, 123, 254, 255, 124]), (Payload::Invalid, 0));
    assert_eq!(Payload::Invalid.to_le_bytes(), vec![255u8, 255]);
}

#[test]
fn client_invalid_payload_reads_as_invalid_message() {
    let msg = Message::new(Payload::Invalid);
    let mut buffer = [0u8; 8];
    assert_eq!(msg.pack_bytes(&mut buffer), Ok(4));
    assert_eq!(&buffer[..4], &[2u8, 0, 255, 255]);
    assert_eq!(Message::from_bytes(&buffer), Err(Error::InvalidMessage));
}
