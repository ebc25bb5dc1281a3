use tacacs_plus::accounting::{Flags, Reply, Request, Status};
use tacacs_plus::obfuscate::xor_body_with_pad;
use tacacs_plus::packet::{serialize_into_buffer, DeserializeBody, HeaderInfo, Packet, PacketFlags};
use tacacs_plus::{
    Argument, Arguments, AuthenticationContext, AuthenticationMethod, AuthenticationService,
    AuthenticationType, FieldText, MajorVersion, MinorVersion, PrivilegeLevel, UserInformation,
    Version,
};

fn ft(text: &str) -> FieldText {
    FieldText::new(text).unwrap()
}

#[test]
fn serialize_request_body_with_argument() {
    let argument_array = vec![Argument::new(ft("service"), ft("tacacs-test"), true)
        .expect("argument should be valid")];

    let arguments = Arguments::new(argument_array).expect("argument array should be valid");

    let request = Request::new(
        Flags::StartRecord,
        AuthenticationMethod::Guest,
        AuthenticationContext {
            privilege_level: PrivilegeLevel::new(0).unwrap(),
            authentication_type: AuthenticationType::Ascii,
            service: AuthenticationService::Login,
        },
        UserInformation::new(String::from("guest"), ft("tty0"), ft("127.10.0.100")).unwrap(),
        arguments,
    );

    let mut buffer = vec![0u8; 50];
    serialize_into_buffer(&request, &mut buffer).expect("buffer should have been large enough");

    let mut expected: Vec<u8> = Vec::new();
    expected.extend_from_slice(&[
        0x02, // just start flag set
        0x08, // Guest authentication method
        0,    // privilege level 0 (minimum)
        0x01, // ASCII authentication type
        0x01, // authentication service: login
        5,    // user length
        4,    // port length
        12,   // remote address length
        1,    // argument count
        19,   // argument 1 length
    ]);

    expected.extend_from_slice(b"guest"); // user
    expected.extend_from_slice(b"tty0"); // port
    expected.extend_from_slice(b"127.10.0.100"); // remote address
    expected.extend_from_slice(b"service=tacacs-test"); // argument

    assert_eq!(buffer, expected);
}

#[test]
fn serialize_full_request_packet() {
    let arguments_array = vec![
        Argument::new(ft("task_id"), ft("1234"), true).unwrap(),
        Argument::new(ft("service"), ft("fullpacket"), true).unwrap(),
    ];

    let arguments = Arguments::new(arguments_array)
        .expect("Arguments construction shouldn't fail; length is short enough");

    let body = Request::new(
        Flags::WatchdogNoUpdate,
        AuthenticationMethod::NotSet,
        AuthenticationContext {
            privilege_level: PrivilegeLevel::new(10).unwrap(),
            authentication_type: AuthenticationType::NotSet,
            service: AuthenticationService::Pt,
        },
        UserInformation::new(String::from("secret"), ft("tty6"), ft("10.10.10.10")).unwrap(),
        arguments,
    );

    let session_id: u32 = 298734923;
    let header = HeaderInfo::new(Version::default(), 1, PacketFlags::none(), session_id);

    let packet = Packet::new(header, body);

    let mut buffer = vec![0xff; 100];
    let packet_size = packet
        .serialize_unobfuscated(&mut buffer)
        .expect("packet serialization failed");

    let mut expected: Vec<u8> = Vec::new();

    // HEADER
    expected.extend_from_slice(&[
        0xc << 4, // version
        0x3,      // accounting packet
        1,        // sequence number
        1,        // unencrypted flag set (updated in serialize_unobfuscated)
    ]);
    expected.extend_from_slice(&session_id.to_be_bytes());
    expected.extend_from_slice(&62_u32.to_be_bytes()); // body length

    // BODY
    expected.extend_from_slice(&[
        0x08, // watchdog flag set (no update)
        0x00, // authentication method: not set
        10,   // privilege level
        0x00, // authentication type: not set
        0x05, // authentication service: PT
        6,    // user length
        4,    // port length
        11,   // remote address length
        2,    // argument count
        12,   // argument 1 length
        18,   // argument 2 length
    ]);

    // user information
    expected.extend_from_slice(b"secret");
    expected.extend_from_slice(b"tty6"); // port
    expected.extend_from_slice(b"10.10.10.10"); // remote address

    // arguments
    expected.extend_from_slice(b"task_id=1234");
    expected.extend_from_slice(b"service=fullpacket");

    assert_eq!(&buffer[..packet_size], expected.as_slice());
}

#[test]
fn deserialize_reply_all_fields() {
    let mut body_raw: Vec<u8> = Vec::new();

    body_raw.extend_from_slice(&[
        0, 47, // server message length
        0, 9,    // data length,
        0x02, // status: error
    ]);

    let server_message = vec![b'A'; 47];
    body_raw.extend_from_slice(&server_message);

    // data
    body_raw.extend_from_slice(b"some data");

    assert_eq!(
        Ok(Reply {
            status: Status::Error,
            server_message: FieldText::from_bytes(server_message).unwrap(),
            data: ft("some data"),
        }),
        Reply::deserialize_from_buffer(&body_raw)
    );
}

#[test]
fn deserialize_full_reply_packet() {
    let session_id: u32 = 49241163;

    let mut raw_packet: Vec<u8> = Vec::new();

    // HEADER
    raw_packet.extend_from_slice(&[
        (0xc << 4) | 1, // version
        3,              // accounting packet
        2,              // sequence number
        5,              // both unencrypted and single connection flags set
    ]);
    raw_packet.extend_from_slice(&session_id.to_be_bytes());
    raw_packet.extend_from_slice(&25_u32.to_be_bytes());

    // BODY
    raw_packet.extend_from_slice(&[
        0, 5, // server message length
        0, 15, // data length
        2,  // status: error
    ]);

    raw_packet.extend_from_slice(b"hello"); // server message
    raw_packet.extend_from_slice(b"fifteen letters"); // data

    let expected_header = HeaderInfo::new(
        Version::new(MajorVersion::RFC8907, MinorVersion::V1),
        2,
        PacketFlags::from_bits(5).unwrap(),
        session_id,
    );

    let expected_body = Reply {
        status: Status::Error,
        server_message: ft("hello"),
        data: ft("fifteen letters"),
    };

    let expected_packet = Packet::new(expected_header, expected_body);

    assert_eq!(
        Packet::deserialize_unobfuscated(&raw_packet),
        Ok(expected_packet)
    );
}

#[test]
fn serialize_request_packet_obfuscated() {
    let auth_context = AuthenticationContext {
        privilege_level: PrivilegeLevel::new(12).unwrap(),
        authentication_type: AuthenticationType::Chap,
        service: AuthenticationService::NoService,
    };
    let user_info =
        UserInformation::new(String::from("whoknows"), ft("67"), ft("127.3.244.2")).unwrap();

    let arguments_array = vec![
        Argument::new(ft("task_id"), ft("1"), true).unwrap(),
        Argument::new(ft("start_time"), ft("3"), false).unwrap(),
    ];
    let arguments = Arguments::new(arguments_array).unwrap();

    let body = Request::new(
        Flags::StartRecord,
        AuthenticationMethod::Kerberos4,
        auth_context,
        user_info,
        arguments,
    );

    let session_id: u32 = 234897234;
    let header = HeaderInfo::new(
        Version::default(),
        1,
        PacketFlags::from_bits(5).unwrap(),
        session_id,
    );

    let packet = Packet::new(header, body);

    let key = b"supersecurekey".to_vec();
    let mut buffer = vec![0xff; 70];
    let serialized_length = packet
        .serialize(&key, &mut buffer)
        .expect("packet serialization should succeed");

    // assemble expected packet serialization result
    let mut expected: Vec<u8> = Vec::new();

    // HEADER
    expected.extend_from_slice(&[
        0xc << 4, // version (minor version 0)
        3,        // accounting packet
        1,        // sequence number
        4,        // single connection flag set (unencrypted flag should be unset by serialize())
    ]);

    expected.extend_from_slice(&session_id.to_be_bytes());
    expected.extend_from_slice(&53_u32.to_be_bytes());

    // BODY: unobfuscated
    let mut expected_body: Vec<u8> = Vec::new();
    expected_body.extend_from_slice(&[
        2,    // START flag, to indicate start of record
        0x11, // authentication method: kerberos 4
        12,   // privilege level
        3,    // authentication type: CHAP
        0,    // authentication service: none
        8,    // user length
        2,    // port length
        11,   // remote address length
        2,    // argument count
        9,    // argument 1 length
        12,   // argument 2 length
    ]);

    // user information
    expected_body.extend_from_slice(b"whoknows");
    expected_body.extend_from_slice(b"67");
    expected_body.extend_from_slice(b"127.3.244.2");

    // arguments
    expected_body.extend_from_slice(b"task_id=1");
    expected_body.extend_from_slice(b"start_time*3");

    // obfuscation of body
    xor_body_with_pad(&header, &key, &mut expected_body);
    expected.extend_from_slice(&expected_body);

    // ensure obfuscation is correct
    assert_eq!(&buffer[..serialized_length], &expected[..serialized_length]);
}
