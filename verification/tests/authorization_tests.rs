use tacacs_plus::authorization::{Reply, Request, Status};
use tacacs_plus::obfuscate::xor_body_with_pad;
use tacacs_plus::packet::{serialize_into_buffer, DeserializeBody, HeaderInfo, Packet, PacketFlags};
use tacacs_plus::{
    Argument, ArgumentOwned, Arguments, AuthenticationContext, AuthenticationMethod,
    AuthenticationService, AuthenticationType, FieldText, MajorVersion, MinorVersion,
    PrivilegeLevel, UserInformation, Version,
};

fn ft(text: &str) -> FieldText {
    FieldText::new(text).unwrap()
}

#[test]
fn serialize_request_no_arguments() {
    let authentication_context = AuthenticationContext {
        privilege_level: PrivilegeLevel::new(1).unwrap(),
        authentication_type: AuthenticationType::Ascii,
        service: AuthenticationService::Enable,
    };

    let user_information = UserInformation::new(
        String::from("testuser"),
        ft("tcp49"),
        ft("127.0.0.1"),
    )
    .expect("client information should have been valid");

    let request = Request::new(
        AuthenticationMethod::Enable,
        authentication_context,
        user_information,
        Arguments::new(Vec::new()).unwrap(),
    );

    let mut buffer = vec![0u8; 40];
    serialize_into_buffer(&request, &mut buffer).expect("buffer should have been big enough");

    let mut expected: Vec<u8> = Vec::new();
    expected.extend_from_slice(&[
        0x04, // authentication method: enable
        1,    // privilege level: 1
        0x01, // authentication type: ASCII
        0x02, // authentication service: enable
        8,    // user length
        5,    // port length
        9,    // remote address length
        0,    // argument count (no arguments supplied)
    ]);

    expected.extend_from_slice(b"testuser"); // user
    expected.extend_from_slice(b"tcp49"); // port
    expected.extend_from_slice(b"127.0.0.1"); // remote address

    assert_eq!(&buffer[..30], expected.as_slice());
}

#[test]
fn serialize_request_one_argument() {
    let authentication_context = AuthenticationContext {
        privilege_level: PrivilegeLevel::new(15).expect("15 should be a valid privilege level"),
        authentication_type: AuthenticationType::MsChapV2,
        service: AuthenticationService::FwProxy,
    };

    let user_information = UserInformation::new(
        String::from("testuser"),
        ft("ttyAMA0"),
        ft("127.1.2.2"),
    )
    .expect("client information should have been valid");

    let argument_array = vec![Argument::new(ft("service"), ft("serialization-test"), true)
        .expect("argument should be valid")];

    let arguments = Arguments::new(argument_array).expect("single argument array should be valid");

    let request = Request::new(
        AuthenticationMethod::TacacsPlus,
        authentication_context,
        user_information,
        arguments,
    );

    let mut buffer = vec![0u8; 60];
    let serialized_length =
        serialize_into_buffer(&request, &mut buffer).expect("buffer should be large enough");

    let mut expected: Vec<u8> = Vec::new();
    expected.extend_from_slice(&[
        0x06, // authentication method: TACACS+
        15,   // privilege level
        0x06, // authentication type: MSCHAPv2
        0x09, // authentication service: firewall proxy
        8,    // user length
        7,    // port length
        9,    // remote address length
        1,    // one argument
        26,   // argument 1 length
    ]);

    // user information
    expected.extend_from_slice(b"testuser");
    expected.extend_from_slice(b"ttyAMA0");
    expected.extend_from_slice(b"127.1.2.2");

    // service argument
    expected.extend_from_slice(b"service=serialization-test");

    assert_eq!(&buffer[..serialized_length], expected.as_slice());
}

#[test]
fn tests_serialize_full_request_packet() {
    let session_id: u32 = 578263403;
    let header = HeaderInfo::new(
        Version::new(MajorVersion::RFC8907, MinorVersion::Default),
        1,
        PacketFlags::unencrypted(),
        session_id,
    );

    let arguments_list =
        vec![Argument::new(ft("service"), ft("fulltest"), true).unwrap()];
    let arguments =
        Arguments::new(arguments_list).expect("argument list should be of proper length");

    let body = Request::new(
        AuthenticationMethod::Kerberos5,
        AuthenticationContext {
            privilege_level: PrivilegeLevel::new(14).unwrap(),
            authentication_type: AuthenticationType::NotSet,
            service: AuthenticationService::Enable,
        },
        UserInformation::new(String::from("requestor"), ft("tcp23"), ft("127.254.1.2")).unwrap(),
        arguments,
    );

    let packet = Packet::new(header, body);

    let mut buffer = vec![0x43; 70];
    let serialized_length = packet
        .serialize_unobfuscated(&mut buffer)
        .expect("packet serialization should have succeeded");

    let mut expected: Vec<u8> = Vec::new();

    // HEADER
    expected.extend_from_slice(&[
        0xc << 4, // version
        2,        // authorization packet
        1,        // sequence number
        1,        // unencrypted flag set
    ]);

    expected.extend_from_slice(&session_id.to_be_bytes());
    expected.extend_from_slice(&50_u32.to_be_bytes()); // body length

    // BODY
    expected.extend_from_slice(&[
        2,  // authentication method: Kerberos 5
        14, // privilege level
        0,  // authentication type: not set
        2,  // authentication service: enable
        9,  // user length
        5,  // port length
        11, // remote address length
        1,  // argument count
        16, // argument 1 length
    ]);

    // user information
    expected.extend_from_slice(b"requestor");
    expected.extend_from_slice(b"tcp23");
    expected.extend_from_slice(b"127.254.1.2");

    // service argument
    expected.extend_from_slice(b"service=fulltest");

    assert_eq!(&buffer[..serialized_length], expected.as_slice());
}

#[test]
fn deserialize_reply_no_arguments() {
    let mut raw_bytes: Vec<u8> = Vec::new();
    raw_bytes.extend_from_slice(&[
        0x01, // status: pass/add
        0,    // no arguments
        0, 15, // server message length
        0, 5, // data length
    ]);

    raw_bytes.extend_from_slice(b"this is a reply"); // server message
    raw_bytes.extend_from_slice(b"short"); // data

    let parsed = Reply::deserialize_from_buffer(&raw_bytes)
        .expect("packet parsing should have succeeded");

    // field checks
    assert_eq!(parsed.status(), Status::PassAdd);
    assert!(parsed.server_message().eq_str("this is a reply"));
    assert!(parsed.data().eq_str("short"));

    // ensure the argument list is empty
    assert_eq!(parsed.iter_arguments().len(), 0);
}

#[test]
fn deserialize_reply_two_arguments() {
    let mut raw_bytes: Vec<u8> = Vec::new();
    raw_bytes.extend_from_slice(&[
        0x01, // status: pass/add
        2,    // two arguments
        0, 5, // server message length
        0, 5,  // data length
        13, // argument 1 length
        13, // argument 2 length
    ]);

    raw_bytes.extend_from_slice(b"hello"); // server message
    raw_bytes.extend_from_slice(b"world"); // data

    // arguments
    raw_bytes.extend_from_slice(b"service=greet");
    raw_bytes.extend_from_slice(b"person*world!");

    let expected_arguments = vec![
        Argument::new(ft("service"), ft("greet"), true).unwrap(),
        Argument::new(ft("person"), ft("world!"), false).unwrap(),
    ];

    let parsed = Reply::deserialize_from_buffer(&raw_bytes)
        .expect("argument parsing should have succeeded");

    assert_eq!(parsed.status(), Status::PassAdd);
    assert!(parsed.server_message().eq_str("hello"));
    assert!(parsed.data().eq_str("world"));

    // ensure the arguments were decoded in order
    let arguments = parsed.iter_arguments();
    assert_eq!(arguments.len(), 2);
    assert_eq!(arguments[0], expected_arguments[0]);
    assert_eq!(arguments[1], expected_arguments[1]);
}

#[test]
fn tests_deserialize_full_reply_packet() {
    let mut raw_packet: Vec<u8> = Vec::new();

    let session_id: u32 = 92837492;

    // HEADER
    raw_packet.extend_from_slice(&[
        0xc << 4,    // major/minor version
        0x2,         // type: authorization
        4,           // sequence number
        0x01 | 0x04, // both flags set
    ]);

    raw_packet.extend_from_slice(&session_id.to_be_bytes());
    raw_packet.extend_from_slice(&45_u32.to_be_bytes()); // body length

    // BODY
    raw_packet.extend_from_slice(&[
        0x10, // status: fail
        1,    // argument count
        0, 23, // server message length
        0, 4,  // data length
        11, // argument length
    ]);

    raw_packet.extend_from_slice(b"something went wrong :("); // server message
    raw_packet.extend_from_slice(b"data"); // data
    raw_packet.extend_from_slice(b"service=nah");

    let expected_argument = Argument::new(ft("service"), ft("nah"), true).unwrap();

    let expected_header = HeaderInfo::new(
        Version::new(MajorVersion::RFC8907, MinorVersion::Default),
        4,
        PacketFlags::from_bits(0x01 | 0x04).unwrap(),
        92837492,
    );

    let parsed: Packet<Reply> = Packet::deserialize_unobfuscated(&raw_packet)
        .expect("packet deserialization should succeed");

    assert_eq!(parsed.header(), &expected_header);

    assert_eq!(parsed.body().status(), Status::Fail);
    assert!(parsed.body().server_message().eq_str("something went wrong :("));
    assert!(parsed.body().data().eq_str("data"));

    // argument check: exactly one argument
    let arguments = parsed.body().iter_arguments();
    assert_eq!(arguments.len(), 1);
    assert_eq!(arguments[0], expected_argument);
}

#[test]
fn deserialize_obfuscated_reply_packet() {
    let mut raw_packet: Vec<u8> = vec![
        // HEADER
        0xc << 4, // version (only major, default minor)
        2,        // authorization packet
        2,        // sequence number
        4,        // single connect flag set (not unencrypted)
        // session id (big-endian u32)
        2, 234, 98, 242, // body length (big-endian u32)
        0, 0, 0, 38, // BODY
        2, // status: pass/replace arguments
        1, // argument count
        // server message length (big-endian u16)
        0, 21, // data length (big-endian u16)
        0, 0, // argument 1 length
        10,
    ];

    // server message
    raw_packet.extend_from_slice(b"privilege level reset");

    // (data field is empty)

    // argument 1
    raw_packet.extend_from_slice(b"priv-lvl=0");

    let expected_header = HeaderInfo::new(
        Version::new(MajorVersion::RFC8907, MinorVersion::Default),
        2,
        PacketFlags::single_connection(),
        48915186,
    );

    // obfuscate packet body with the proper pseudo-pad
    let secret_key = b"packetissecured".to_vec();
    let mut body_section = raw_packet[12..].to_vec();
    xor_body_with_pad(&expected_header, &secret_key, &mut body_section);
    raw_packet.truncate(12);
    raw_packet.extend_from_slice(&body_section);

    // attempt to deserialize obfuscated packet
    let packet: Packet<Reply> = Packet::deserialize(&secret_key, &raw_packet)
        .expect("packet deserialization should have succeeded");

    // header
    assert_eq!(packet.header(), &expected_header);

    // body fields
    let parsed_body = packet.body();
    assert_eq!(parsed_body.status(), Status::PassReplace);
    assert!(parsed_body.server_message().eq_str("privilege level reset"));
    assert!(parsed_body.data().eq_str(""));

    // also check the argument
    let arguments = parsed_body.iter_arguments();
    assert_eq!(arguments.len(), 1);
    assert_eq!(
        arguments[0],
        Argument::new(ft("priv-lvl"), ft("0"), true).unwrap()
    );
}

#[test]
fn full_unobfuscated_reply_packet_to_owned() {
    let mut raw_packet: Vec<u8> = vec![
        // HEADER
        0xc << 4, // version - major only version, minor v0
        2,        // authorization packet
        2,        // sequence number
        1 | 4,    // both single connection/unencrypted flags set
        // session id
        0xd4, 0x95, 0x32, 0xc3, // body length
        0, 0, 0, 41, // BODY
        1, // status: add
        1, // argument count
        // server message length
        0, 11, // data length
        0, 10, // argument 1 length
        13,
    ];

    // server message
    raw_packet.extend_from_slice(b"message (1)");

    // data/log message
    raw_packet.extend_from_slice(b"ten chars!");

    // argument
    raw_packet.extend_from_slice(b"service=owned");

    let packet: Packet<Reply> = Packet::deserialize_unobfuscated(&raw_packet)
        .expect("packet deserialization should have succeeded");

    // check packet header
    assert_eq!(
        packet.header(),
        &HeaderInfo::new(
            Version::new(MajorVersion::RFC8907, MinorVersion::Default),
            2,
            PacketFlags::from_bits(5).unwrap(),
            3566547651
        )
    );

    // check owned body fields
    let owned_body = packet.body().to_owned();

    assert_eq!(owned_body.status, Status::PassAdd);
    assert_eq!(owned_body.server_message, "message (1)");
    assert_eq!(owned_body.data, "ten chars!");
    assert_eq!(
        owned_body.arguments,
        vec![ArgumentOwned {
            name: String::from("service"),
            value: String::from("owned"),
            required: true
        }]
    );
}

#[test]
fn deserialize_reply_with_bad_argument() {
    let mut raw_bytes: Vec<u8> = Vec::new();
    raw_bytes.extend_from_slice(&[
        0x01, // status: pass/add
        1,    // one argument
        0, 0, // server message length
        0, 0, // data length
        7, // argument length
    ]);
    raw_bytes.extend_from_slice(b"nodelim"); // an argument without = or *

    assert_eq!(
        Reply::deserialize_from_buffer(&raw_bytes),
        Err(tacacs_plus::DeserializeError::InvalidArgument(
            tacacs_plus::InvalidArgument::NoDelimiter
        ))
    );
}

#[test]
fn deserialize_reply_with_unprintable_message() {
    let mut raw_bytes: Vec<u8> = Vec::new();
    raw_bytes.extend_from_slice(&[
        0x01, // status: pass/add
        0,    // no arguments
        0, 3, // server message length
        0, 0, // data length
    ]);
    raw_bytes.extend_from_slice(&[b'h', 0x07, b'i']); // a control byte inside

    assert_eq!(
        Reply::deserialize_from_buffer(&raw_bytes),
        Err(tacacs_plus::DeserializeError::BadText)
    );
}
