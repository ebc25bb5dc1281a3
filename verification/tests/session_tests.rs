use md5::{Digest, Md5};

use tacacs_plus::accounting;
use tacacs_plus::authorization;
use tacacs_plus::authentication::{Reply, ReplyFlags, Status};
use tacacs_plus::client::{
    accounting_request_packet, accounting_response, authentication_response,
    authorization_response, chap_login_start_packet, expected_reply_sequence_number,
    merge_authorization_arguments, pap_login_start_packet, parse_received_packet,
    AuthenticationType, ClientError,
};
use tacacs_plus::packet::{DeserializeBody, HeaderInfo, Packet, PacketFlags};
use tacacs_plus::task::{decimal_text, TaskOperation};
use tacacs_plus::{
    AccountingTask, Argument, AuthenticationMethod, AuthenticationService, ConnectionState,
    ContextBuilder, FieldText, MinorVersion, ResponseStatus, SessionContext, Version,
};

fn ft(text: &str) -> FieldText {
    FieldText::new(text).unwrap()
}

fn context(user: &str) -> SessionContext {
    ContextBuilder::new(String::from(user)).build()
}

#[test]
fn context_builder_defaults() {
    let context = context("someuser");
    assert_eq!(context.user, "someuser");
    assert_eq!(context.port, "rust_client");
    assert_eq!(context.remote_address, "tacacs_plus_rs");
    assert_eq!(context.privilege_level.value(), 0);
    assert!(context.authentication_method.is_none());
}

#[test]
fn pap_start_packet_has_odd_sequence_and_flag_policy() {
    // with a secret: unencrypted cleared on the eventual wire form
    let packet = pap_login_start_packet(&context("paper"), "hunter2", true).unwrap();
    assert_eq!(packet.header().sequence_number(), 1);
    assert_eq!(packet.header().sequence_number() % 2, 1);
    assert!(packet.header().flags().single_connection_set());
    assert!(!packet.header().flags().unencrypted_set());
    assert_eq!(packet.header().version().minor(), MinorVersion::V1);
    assert_eq!(packet.body().data, b"hunter2".to_vec());

    // without a secret: unencrypted set
    let packet = pap_login_start_packet(&context("paper"), "hunter2", false).unwrap();
    assert!(packet.header().flags().unencrypted_set());
}

#[test]
fn pap_password_too_long() {
    let long_password = "p".repeat(256);
    assert_eq!(
        pap_login_start_packet(&context("paper"), &long_password, true).unwrap_err(),
        ClientError::PasswordTooLong
    );
}

#[test]
fn chap_start_data_is_33_bytes() {
    // the data field is ppp id (1) + challenge (16) + MD5 response (16),
    // whatever the password and however the random values fall
    for password in ["", "a", "quite a long password, well beyond one block"] {
        let packet = chap_login_start_packet(&context("chapuser"), password, true).unwrap();
        assert_eq!(packet.body().data.len(), 33);
        assert_eq!(packet.header().sequence_number(), 1);
    }
}

#[test]
fn chap_data_is_id_challenge_response() {
    // data = ppp id (1) ++ challenge (16) ++ MD5(ppp id ++ password ++ challenge)
    let password = "the password";
    let packet = chap_login_start_packet(&context("chapuser"), password, true).unwrap();
    let data = &packet.body().data;
    assert_eq!(data.len(), 33);

    let ppp_id = data[0];
    let challenge = &data[1..17];
    let response = &data[17..33];

    let mut hash_input = vec![ppp_id];
    hash_input.extend_from_slice(password.as_bytes());
    hash_input.extend_from_slice(challenge);
    let digest = Md5::digest(&hash_input);
    assert_eq!(response, digest.as_slice());
}

#[test]
fn login_start_packet_dispatches() {
    let pap = tacacs_plus::client::login_start_packet(
        AuthenticationType::Pap,
        &context("u"),
        "pw",
        true,
    )
    .unwrap();
    assert_eq!(pap.body().data, b"pw".to_vec());

    let chap = tacacs_plus::client::login_start_packet(
        AuthenticationType::Chap,
        &context("u"),
        "pw",
        true,
    )
    .unwrap();
    assert_eq!(chap.body().data.len(), 33);
}

#[test]
fn single_connection_lifecycle() {
    // First session on a fresh connection: the reply with sequence number
    // 2 carries the single-connection flag, so the connection is kept.
    let mut state = ConnectionState::new();
    let reply_header = HeaderInfo::new(
        Version::default(),
        2,
        PacketFlags::single_connection(),
        77,
    );
    state.set_internal_single_connect_status(&reply_header);
    assert!(state.single_connection_established);
    let closed = state.post_session_cleanup(false);
    assert!(!closed);
    assert!(state.first_session_completed);

    // Later sessions ignore the flag, and the connection stays.
    let closed = state.post_session_cleanup(false);
    assert!(!closed);

    // A server error closes the connection and resets the state.
    let closed = state.post_session_cleanup(true);
    assert!(closed);
    assert_eq!(state, ConnectionState::new());

    // Without the flag in the first reply, the connection is dropped
    // after the session.
    let mut state = ConnectionState::new();
    let plain_header = HeaderInfo::new(Version::default(), 2, PacketFlags::none(), 78);
    state.set_internal_single_connect_status(&plain_header);
    assert!(!state.single_connection_established);
    assert!(state.post_session_cleanup(false));
}

#[test]
fn single_connection_flag_ignored_after_first_session() {
    let mut state = ConnectionState::new();
    // no flag in the first session's reply, but the connection survives a
    // hypothetical keep: mark the first session complete by hand
    state.first_session_completed = true;

    let reply_header = HeaderInfo::new(
        Version::default(),
        2,
        PacketFlags::single_connection(),
        79,
    );
    state.set_internal_single_connect_status(&reply_header);
    assert!(!state.single_connection_established);
}

#[test]
fn sequence_number_overflow_is_fatal() {
    assert_eq!(expected_reply_sequence_number(1), Ok(2));
    assert_eq!(expected_reply_sequence_number(253), Ok(254));
    assert_eq!(
        expected_reply_sequence_number(255),
        Err(ClientError::SequenceNumberOverflow)
    );
}

#[test]
fn received_packet_sequence_mismatch_rejected() {
    // an accounting success reply with sequence number 4
    let mut raw_packet: Vec<u8> = Vec::new();
    raw_packet.extend_from_slice(&[0xc << 4, 3, 4, 1]);
    raw_packet.extend_from_slice(&7u32.to_be_bytes());
    raw_packet.extend_from_slice(&10u32.to_be_bytes());
    raw_packet.extend_from_slice(&[0, 2, 0, 3, 1]);
    raw_packet.extend_from_slice(b"okurl");

    // expecting sequence number 2 rejects it
    let result = parse_received_packet::<accounting::Reply>(None, &raw_packet, 2);
    assert_eq!(
        result.unwrap_err(),
        ClientError::SequenceNumberMismatch {
            expected: 2,
            actual: 4
        }
    );

    // expecting sequence number 4 accepts it
    let packet = parse_received_packet::<accounting::Reply>(None, &raw_packet, 4).unwrap();
    assert_eq!(packet.body().status(), accounting::Status::Success);
    assert!(packet.body().server_message().eq_str("ok"));
    assert!(packet.body().data().eq_str("url"));
}

#[test]
fn obfuscated_round_trip_through_wire() {
    // serialize a reply packet under a secret, then read the bytes back
    // with the same secret: the packet survives the round trip
    let body = authorization::Reply {
        status: authorization::Status::PassReplace,
        server_message: ft("welcome"),
        data: ft("log line"),
        arguments: vec![Argument::new(ft("priv-lvl"), ft("15"), true).unwrap()],
    };
    let header = HeaderInfo::new(Version::default(), 2, PacketFlags::single_connection(), 4242);
    let packet = Packet::new(header, body);

    let key = b"a very shared secret".to_vec();
    let mut buffer = vec![0u8; 200];
    let written = packet.serialize(&key, &mut buffer).unwrap();
    buffer.truncate(written);

    let reread: Packet<authorization::Reply> = Packet::deserialize(&key, &buffer)
        .expect("the packet should deserialize under the same secret");
    assert_eq!(reread.header().session_id(), 4242);
    assert_eq!(reread.header().sequence_number(), 2);
    assert_eq!(reread.body().status(), authorization::Status::PassReplace);
    assert!(reread.body().server_message().eq_str("welcome"));
    assert!(reread.body().data().eq_str("log line"));
    let args = reread.body().iter_arguments();
    assert_eq!(args.len(), 1);
    assert!(args[0].name().eq_str("priv-lvl"));
    assert!(args[0].value().eq_str("15"));
    assert!(args[0].mandatory());

    // and without a secret it is rejected, since the unencrypted flag is
    // clear on the wire
    assert!(Packet::<authorization::Reply>::deserialize_unobfuscated(&buffer).is_err());
}

#[test]
fn accounting_request_packet_builder() {
    let mut context = context("roundtrip");
    context.authentication_method = Some(AuthenticationMethod::Local);
    let arguments = vec![Argument::new(ft("task_id"), ft("42"), true).unwrap()];
    let packet = accounting_request_packet(
        &context,
        accounting::Flags::StopRecord,
        arguments,
        true,
    )
    .unwrap();
    assert_eq!(packet.header().sequence_number(), 1);
    assert_eq!(packet.header().version().minor(), MinorVersion::Default);
    assert!(packet.header().flags().single_connection_set());
    assert!(!packet.header().flags().unencrypted_set());

    // the body is composed exactly as the session rules say: record
    // flags, method from the context, type not set, service login, and
    // the context's privilege level and user information
    assert_eq!(packet.body().flags, accounting::Flags::StopRecord);
    assert_eq!(
        packet.body().authentication_method,
        AuthenticationMethod::Local
    );
    assert_eq!(
        packet.body().authentication.authentication_type,
        tacacs_plus::AuthenticationType::NotSet
    );
    assert_eq!(
        packet.body().authentication.service,
        AuthenticationService::Login
    );
    assert_eq!(
        packet.body().authentication.privilege_level,
        context.privilege_level
    );
    assert!(packet.body().user_information.port.eq_str("rust_client"));
    assert!(packet
        .body()
        .user_information
        .remote_address
        .eq_str("tacacs_plus_rs"));
    let args = packet.body().arguments.as_slice();
    assert_eq!(args.len(), 1);
    assert!(args[0].name().eq_str("task_id"));
    assert!(args[0].value().eq_str("42"));
    assert!(args[0].mandatory());
}

#[test]
fn authorization_request_packet_composition() {
    let context = context("authzuser");
    let arguments = vec![Argument::new(ft("service"), ft("shell"), true).unwrap()];
    let packet =
        tacacs_plus::client::authorization_request_packet(&context, arguments, false).unwrap();

    assert_eq!(packet.header().sequence_number(), 1);
    assert!(packet.header().flags().unencrypted_set());
    // no method configured: NotSet goes on the wire
    assert_eq!(packet.body().method, AuthenticationMethod::NotSet);
    assert_eq!(
        packet.body().authentication_context.authentication_type,
        tacacs_plus::AuthenticationType::NotSet
    );
    assert_eq!(
        packet.body().authentication_context.service,
        AuthenticationService::Login
    );
    assert!(packet.body().user_information.user.eq("authzuser"));
}

#[test]
fn task_operations_pick_their_record_flags() {
    assert_eq!(
        TaskOperation::Start.record_flags(),
        accounting::Flags::StartRecord
    );
    assert_eq!(
        TaskOperation::Update.record_flags(),
        accounting::Flags::WatchdogUpdate
    );
    assert_eq!(
        TaskOperation::Stop.record_flags(),
        accounting::Flags::StopRecord
    );
}

#[test]
fn merge_appends_for_pass_add() {
    let sent = vec![
        Argument::new(ft("service"), ft("shell"), true).unwrap(),
        Argument::new(ft("priv-lvl"), ft("1"), true).unwrap(),
    ];
    let received = vec![Argument::new(ft("timeout"), ft("30"), false).unwrap()];

    let merged = merge_authorization_arguments(false, sent, &received);
    assert_eq!(merged.len(), 3);
    assert!(merged[0].name().eq_str("service"));
    assert!(merged[1].name().eq_str("priv-lvl"));
    assert!(merged[2].name().eq_str("timeout"));
    assert!(merged[2].value().eq_str("30"));
}

#[test]
fn merge_replaces_for_pass_replace() {
    let sent = vec![
        Argument::new(ft("service"), ft("shell"), true).unwrap(),
        Argument::new(ft("priv-lvl"), ft("1"), true).unwrap(),
    ];
    let received = vec![
        Argument::new(ft("priv-lvl"), ft("15"), true).unwrap(),
        Argument::new(ft("timeout"), ft("30"), false).unwrap(),
    ];

    let merged = merge_authorization_arguments(true, sent, &received);
    assert_eq!(merged.len(), 3);
    // the identically named entry keeps its place, with the received value
    assert!(merged[0].name().eq_str("service"));
    assert!(merged[0].value().eq_str("shell"));
    assert!(merged[1].name().eq_str("priv-lvl"));
    assert!(merged[1].value().eq_str("15"));
    // every other received name is appended
    assert!(merged[2].name().eq_str("timeout"));
    assert!(merged[2].value().eq_str("30"));
}

#[test]
fn authentication_status_mapping() {
    let reply = |status: Status| Reply {
        status,
        server_message: ft("msg"),
        data: vec![1, 2],
        flags: ReplyFlags::none(),
    };

    let pass = authentication_response(&reply(Status::Pass)).unwrap();
    assert_eq!(pass.status, ResponseStatus::Success);
    assert_eq!(pass.user_message, "msg");
    assert_eq!(pass.data, vec![1, 2]);

    let fail = authentication_response(&reply(Status::Fail)).unwrap();
    assert_eq!(fail.status, ResponseStatus::Failure);

    // Restart and Follow map to failures
    assert_eq!(
        authentication_response(&reply(Status::Restart)).unwrap().status,
        ResponseStatus::Failure
    );
    assert_eq!(
        authentication_response(&reply(Status::Follow)).unwrap().status,
        ResponseStatus::Failure
    );

    // any other status is an error carrying the reply's fields
    let error = authentication_response(&reply(Status::GetPassword)).unwrap_err();
    assert_eq!(
        error,
        ClientError::AuthenticationError {
            status: Status::GetPassword,
            data: vec![1, 2],
            user_message: String::from("msg"),
        }
    );
}

#[test]
fn authorization_status_mapping() {
    let reply = |status: authorization::Status| authorization::Reply {
        status,
        server_message: ft("user message"),
        data: ft("admin message"),
        arguments: vec![Argument::new(ft("timeout"), ft("5"), false).unwrap()],
    };

    let sent = vec![Argument::new(ft("service"), ft("shell"), true).unwrap()];
    let response = authorization_response(sent, &reply(authorization::Status::PassAdd)).unwrap();
    assert_eq!(response.status, ResponseStatus::Success);
    assert_eq!(response.arguments.len(), 2);
    assert_eq!(response.user_message, "user message");
    assert_eq!(response.admin_message, "admin message");

    let failed = authorization_response(Vec::new(), &reply(authorization::Status::Fail)).unwrap();
    assert_eq!(failed.status, ResponseStatus::Failure);

    let error =
        authorization_response(Vec::new(), &reply(authorization::Status::Error)).unwrap_err();
    assert!(matches!(
        error,
        ClientError::AuthorizationError {
            status: authorization::Status::Error,
            ..
        }
    ));
}

#[test]
fn accounting_status_mapping() {
    let reply = |status: accounting::Status| accounting::Reply {
        status,
        server_message: ft("logged"),
        data: ft("detail"),
    };

    let ok = accounting_response(&reply(accounting::Status::Success)).unwrap();
    assert_eq!(ok.user_message, "logged");
    assert_eq!(ok.admin_message, "detail");

    let error = accounting_response(&reply(accounting::Status::Error)).unwrap_err();
    assert!(matches!(
        error,
        ClientError::AccountingError {
            status: accounting::Status::Error,
            ..
        }
    ));

    // Follow is treated as an error too
    assert!(accounting_response(&reply(accounting::Status::Follow)).is_err());
}

#[test]
fn task_record_arguments() {
    let task = AccountingTask::new(context("taskuser"));
    let caller_arguments = vec![Argument::new(ft("service"), ft("shell"), true).unwrap()];

    let start = task.start_arguments(&caller_arguments).unwrap();
    assert_eq!(start.len(), 3);
    assert!(start[0].name().eq_str("task_id"));
    assert!(start[0].mandatory());
    assert!(start[1].name().eq_str("start_time"));
    assert!(start[1].mandatory());
    assert!(start[2].name().eq_str("service"));

    // the task id is the same across records of the task
    let update = task.update_arguments(&caller_arguments);
    assert_eq!(update.len(), 3);
    assert_eq!(update[0].value(), start[0].value());
    assert!(update[1].name().eq_str("elapsed_time"));

    let stop = task.stop_arguments(&Vec::new()).unwrap();
    assert_eq!(stop.len(), 2);
    assert_eq!(stop[0].value(), start[0].value());
    assert!(stop[1].name().eq_str("stop_time"));

    // timestamps are decimal digits
    let start_time = start[1].value().as_bytes();
    assert!(!start_time.is_empty());
    assert!(start_time.iter().all(|b| b.is_ascii_digit()));

    // ids from different tasks differ
    let other = AccountingTask::new(context("taskuser"));
    assert_ne!(task.id, other.id);
    assert_eq!(task.id.len(), 36);
}

#[test]
fn decimal_text_renders_exact_digits() {
    assert!(decimal_text(0).eq_str("0"));
    assert!(decimal_text(7).eq_str("7"));
    assert!(decimal_text(1700000000).eq_str("1700000000"));
    assert!(decimal_text(u64::MAX).eq_str("18446744073709551615"));
}

#[test]
fn invalid_context_is_rejected() {
    let mut context = context("user");
    context.port = String::from("não-ascii");
    assert_eq!(
        pap_login_start_packet(&context, "pw", true).unwrap_err(),
        ClientError::InvalidContext
    );
}

#[test]
fn too_many_arguments_rejected() {
    let mut arguments = Vec::new();
    for _ in 0..256 {
        arguments.push(Argument::new(ft("k"), ft("v"), true).unwrap());
    }
    assert_eq!(
        tacacs_plus::client::authorization_request_packet(&context("user"), arguments, true)
            .unwrap_err(),
        ClientError::TooManyArguments
    );
}

#[test]
fn invalid_received_packet_is_reported() {
    // a buffer with a bad version byte
    let mut raw_packet = vec![0x42u8, 3, 2, 1];
    raw_packet.extend_from_slice(&[0u8; 8]);

    let result = parse_received_packet::<accounting::Reply>(None, &raw_packet, 2);
    assert_eq!(
        result.unwrap_err(),
        ClientError::InvalidPacketReceived(tacacs_plus::DeserializeError::InvalidVersion(0x42))
    );
}
