use tacacs_plus::{
    AuthenticationContext, AuthenticationService, AuthenticationType, FieldText, PrivilegeLevel,
    UserInformation,
};

fn ft(text: &str) -> FieldText {
    FieldText::new(text).unwrap()
}

#[test]
fn serialize_authentication_context() {
    let authentication_context = AuthenticationContext {
        privilege_level: PrivilegeLevel::new(14).unwrap(),
        authentication_type: AuthenticationType::Ascii,
        service: AuthenticationService::Login,
    };

    let mut buffer: Vec<u8> = Vec::new();
    authentication_context.serialize(&mut buffer);

    assert_eq!(
        buffer,
        vec![
            14, // privilege level
            1,  // ASCII authentication
            1,  // login service
        ]
    );
}

#[test]
fn serialize_user_information() {
    let user = "useruser";
    let port = ft("tty0");
    let remote_address = ft("127.72.12.99");

    let user_info = UserInformation::new(String::from(user), port, remote_address)
        .expect("user information construction should have succeeded");

    // test lengths serialization
    let mut length_buffer: Vec<u8> = Vec::new();
    user_info.serialize_field_lengths(&mut length_buffer);
    assert_eq!(length_buffer, vec![8, 4, 12]);

    // test body/field values serialization
    let mut value_buffer: Vec<u8> = Vec::new();
    user_info.serialize_field_values(&mut value_buffer);

    let mut expected_values: Vec<u8> = Vec::new();
    expected_values.extend_from_slice(user.as_bytes());
    expected_values.extend_from_slice(b"tty0");
    expected_values.extend_from_slice(b"127.72.12.99");

    assert_eq!(value_buffer, expected_values);
}

#[test]
fn user_information_long_user() {
    let user = "A".repeat(256);
    let user_info = UserInformation::new(user, ft("ttyAMA0"), ft("ttyAMA0"));

    assert!(
        user_info.is_none(),
        "User information with long name should not be constructible"
    );
}
