use tacacs_plus::accounting::Reply;
use tacacs_plus::obfuscate::xor_body_with_pad;
use tacacs_plus::packet::{HeaderInfo, Packet, PacketFlags};
use tacacs_plus::{DeserializeError, MajorVersion, MinorVersion, PacketType, Version};

#[test]
fn obfuscated_packet_wrong_unencrypted_flag() {
    // body doesn't matter (error should be returned before getting there) so we can omit it
    let raw_packet = vec![
        0xc << 4, // version (minor v0)
        3,        // accounting packet
        2,        // sequence number
        1,        // unencrypted flag - shouldn't be set!
        // session id
        0, 0, 0, 0, // body length (doesn't matter)
        0, 0, 0, 0,
    ];

    let deserialize_error = Packet::<Reply>::deserialize(&b"supersecret".to_vec(), &raw_packet)
        .expect_err("packet deserialization should have failed");
    assert_eq!(deserialize_error, DeserializeError::IncorrectUnencryptedFlag);
}

#[test]
fn unobfuscated_packet_wrong_unencrypted_flag() {
    let raw_packet = vec![
        0xc << 4, // version (minor v0)
        3,        // accounting packet
        4,        // sequence number
        0,        // unencrypted flag - should be set!
        // session id
        1, 1, 1, 1, // body length (doesn't matter)
        0, 0, 0, 0,
    ];

    let deserialize_error = Packet::<Reply>::deserialize_unobfuscated(&raw_packet)
        .expect_err("packet deserialization should have failed");
    assert_eq!(deserialize_error, DeserializeError::IncorrectUnencryptedFlag);
}

#[test]
fn obfuscate_correct_pad_generated() {
    let header = HeaderInfo::new(
        Version::new(MajorVersion::RFC8907, MinorVersion::V1),
        7,
        PacketFlags::none(),
        487514234,
    );

    // make buffer slightly over 1 MD5 output length, to also test truncation & MD5 iteration
    let mut buffer = vec![0u8; 20];
    xor_body_with_pad(&header, &b"no one will guess this".to_vec(), &mut buffer);

    assert_eq!(
        buffer,
        vec![
            // known correct pad based on information in header
            0x0d, 0x2e, 0xd1, 0x6f, 0xd6, 0x37, 0xab, 0x81, 0xc1, 0x3a, 0xc8, 0xf9, 0x19, 0xb4,
            0x65, 0x48, 0x06, 0xf6, 0x5b, 0x41
        ]
    );
}

#[test]
fn xor_pad_is_involutive() {
    let header = HeaderInfo::new(
        Version::new(MajorVersion::RFC8907, MinorVersion::Default),
        3,
        PacketFlags::none(),
        0xdeadbeef,
    );
    let key = b"a shared secret".to_vec();
    let plain: Vec<u8> = (0u8..37u8).collect();

    let mut buffer = plain.clone();
    xor_body_with_pad(&header, &key, &mut buffer);
    assert_ne!(buffer, plain);
    xor_body_with_pad(&header, &key, &mut buffer);
    assert_eq!(buffer, plain);
}

#[test]
fn deserialize_rejects_unknown_version() {
    let mut raw_packet = vec![
        0x30, // bad version byte
        3, 2, 1,
    ];
    raw_packet.extend_from_slice(&[0, 0, 0, 0, 0, 0, 0, 0]);

    assert_eq!(
        Packet::<Reply>::deserialize_unobfuscated(&raw_packet),
        Err(DeserializeError::InvalidVersion(0x30))
    );
}

#[test]
fn deserialize_rejects_reserved_header_flags() {
    let mut raw_packet = vec![
        0xc << 4, // version
        3,        // accounting packet
        2,        // sequence number
        0x10,     // reserved flag bit set
    ];
    raw_packet.extend_from_slice(&[0, 0, 0, 0, 0, 0, 0, 0]);

    assert_eq!(
        Packet::<Reply>::deserialize_unobfuscated(&raw_packet),
        Err(DeserializeError::InvalidHeaderFlags(0x10))
    );
}

#[test]
fn deserialize_rejects_unknown_packet_type() {
    let mut raw_packet = vec![
        0xc << 4, // version
        9,        // unknown packet type number
        2,        // sequence number
        1,        // unencrypted flag set
    ];
    raw_packet.extend_from_slice(&[0, 0, 0, 0, 0, 0, 0, 0]);

    assert_eq!(
        Packet::<Reply>::deserialize_unobfuscated(&raw_packet),
        Err(DeserializeError::InvalidPacketType(9))
    );
}

#[test]
fn deserialize_rejects_truncated_body() {
    let mut raw_packet = vec![
        0xc << 4, // version
        3,        // accounting packet
        2,        // sequence number
        1,        // unencrypted flag set
    ];
    raw_packet.extend_from_slice(&[0, 0, 0, 1]); // session id
    raw_packet.extend_from_slice(&[0, 0, 0, 9]); // body length: more than is there
    raw_packet.extend_from_slice(&[0, 0, 0, 0, 1]); // only five body bytes

    assert_eq!(
        Packet::<Reply>::deserialize_unobfuscated(&raw_packet),
        Err(DeserializeError::UnexpectedEnd)
    );
}

#[test]
fn packet_type_mismatch_names_both_types() {
    let mut raw_packet = vec![
        0xc << 4, // version
        1,        // authentication packet, but an accounting reply is expected
        2,        // sequence number
        1,        // unencrypted flag set
    ];
    raw_packet.extend_from_slice(&[0, 0, 0, 1]); // session id
    raw_packet.extend_from_slice(&[0, 0, 0, 0]); // body length

    assert_eq!(
        Packet::<Reply>::deserialize_unobfuscated(&raw_packet),
        Err(DeserializeError::PacketTypeMismatch {
            expected: PacketType::Accounting,
            actual: PacketType::Authentication,
        })
    );
}

#[test]
fn serialize_rejects_short_buffer() {
    let body = Reply {
        status: tacacs_plus::accounting::Status::Success,
        server_message: tacacs_plus::FieldText::new("done").unwrap(),
        data: tacacs_plus::FieldText::new("").unwrap(),
    };
    let header = HeaderInfo::new(Version::default(), 2, PacketFlags::none(), 5);
    let packet = Packet::new(header, body);

    // the packet needs 12 + 9 bytes; offer fewer and nothing is written
    let mut buffer = vec![0xaau8; 10];
    assert_eq!(
        packet.serialize_unobfuscated(&mut buffer),
        Err(tacacs_plus::SerializeError::NotEnoughSpace)
    );
    assert_eq!(buffer, vec![0xaau8; 10]);
}
