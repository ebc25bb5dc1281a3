use tacacs_plus::{Argument, ArgumentOwned, Arguments, FieldText, InvalidArgument};

fn ft(text: &str) -> FieldText {
    FieldText::new(text).unwrap()
}

#[test]
fn arguments_two_required() {
    let argument_array = vec![
        Argument::new(ft("service"), ft("test"), true).expect("argument should be valid"),
        Argument::new(ft("random-argument"), ft(""), true).expect("argument should be valid"),
    ];

    let arguments = Arguments::new(argument_array)
        .expect("argument array -> Arguments conversion should have worked");

    let mut buffer = vec![0u8; 40];

    // ensure header information is serialized correctly
    let header_serialized_len = arguments
        .serialize_count_and_lengths(&mut buffer)
        .expect("buffer should be big enough for argument lengths");
    assert_eq!(buffer[..header_serialized_len], [2, 12, 16]);

    let body_serialized_len = arguments
        .serialize_encoded_values(&mut buffer)
        .expect("buffer should be large enough for argument values");
    assert_eq!(
        &buffer[..body_serialized_len],
        b"service=testrandom-argument="
    );
}

#[test]
fn arguments_one_optional() {
    let arguments_array = vec![Argument::new(ft("optional-arg"), ft("unimportant"), false)
        .expect("argument should be valid")];

    let arguments =
        Arguments::new(arguments_array).expect("argument construction should have succeeded");

    let mut buffer = vec![0u8; 30];
    let header_serialized_len = arguments
        .serialize_count_and_lengths(&mut buffer)
        .expect("buffer should be large enough to hold argument lengths");
    assert_eq!(buffer[..header_serialized_len], [1, 24]);

    let body_serialized_len = arguments
        .serialize_encoded_values(&mut buffer)
        .expect("buffer should be large enough for argument values");
    assert_eq!(&buffer[..body_serialized_len], b"optional-arg*unimportant");
}

#[test]
fn construct_and_serialize_valid_optional_argument() {
    let argument = Argument::new(
        ft("valid name with other symbols: !@#$%^&()"),
        ft("ASCII-value (with space)"),
        false,
    )
    .expect("argument should be valid");
    let argument_len = argument.encoded_length() as usize;

    let mut buffer = vec![0xffu8; 70];
    argument
        .serialize(&mut buffer)
        .expect("argument serialization should succeed");

    assert_eq!(
        &buffer[..argument_len],
        b"valid name with other symbols: !@#$%^&()*ASCII-value (with space)".as_slice()
    );
}

#[test]
fn argument_name_contains_equals_delimiter() {
    assert_eq!(
        Argument::new(
            ft("= <-- shouldn't be there"),
            ft("value doesn't matter"),
            true,
        ),
        Err(InvalidArgument::NameContainsDelimiter)
    );
}

#[test]
fn argument_name_contains_star_delimiter() {
    assert_eq!(
        Argument::new(
            ft("what even is this: *"),
            ft("no one will see this"),
            false,
        ),
        Err(InvalidArgument::NameContainsDelimiter)
    );
}

#[test]
fn argument_total_length_too_big() {
    let long_value = FieldText::from_bytes(vec![b'?'; 256]).unwrap();

    assert_eq!(
        Argument::new(ft("that's some name you've got"), long_value, true),
        Err(InvalidArgument::TooLong)
    );
}

#[test]
fn deserialize_empty_string() {
    assert_eq!(
        Argument::deserialize(&Vec::new()),
        Err(InvalidArgument::NoDelimiter)
    );
}

#[test]
fn deserialize_just_delimiter() {
    assert_eq!(
        Argument::deserialize(&b"=".to_vec()),
        Err(InvalidArgument::EmptyName)
    );
}

#[test]
fn deserialize_both_delims_equals_first() {
    assert_eq!(
        Argument::deserialize(&b"name=1*2".to_vec()),
        Ok(Argument::new(ft("name"), ft("1*2"), true).unwrap())
    );
}

#[test]
fn deserialize_both_delims_star_first() {
    assert_eq!(
        Argument::deserialize(&b"optional*and=stuff".to_vec()),
        Ok(Argument::new(ft("optional"), ft("and=stuff"), false).unwrap())
    );
}

#[test]
fn deserialize_non_printable_is_bad_text() {
    assert_eq!(
        Argument::deserialize(&b"na\xffme=1".to_vec()),
        Err(InvalidArgument::BadText)
    );
}

#[test]
fn argument_to_owned_impl() {
    let argument_unowned =
        Argument::new(ft("name"), ft("value"), true).expect("argument should have been valid");

    assert_eq!(
        argument_unowned.to_owned(),
        ArgumentOwned {
            name: String::from("name"),
            value: String::from("value"),
            required: true
        }
    );
}

#[test]
fn owned_argument_borrowed_round_trip() {
    let owned = ArgumentOwned {
        name: String::from("priv-lvl"),
        value: String::from("15"),
        required: false,
    };

    let rebuilt = owned.borrowed().expect("owned argument should be valid");
    assert!(rebuilt.name().eq_str("priv-lvl"));
    assert!(rebuilt.value().eq_str("15"));
    assert!(!rebuilt.mandatory());

    let bad = ArgumentOwned {
        name: String::from("naïve"),
        value: String::from("x"),
        required: true,
    };
    assert_eq!(bad.borrowed(), Err(InvalidArgument::BadText));
}
