use tacacs_plus::packet::PacketFlags;
use tacacs_plus::FieldText;

#[test]
fn owned_and_borrowed_equal() {
    let owned = FieldText::from_string_lossy(String::from("string"));
    let checked = FieldText::new("string").unwrap();
    assert_eq!(owned, checked);
}

#[test]
fn text_partialeq_str_impl() {
    let string = "some characters in a string";
    let text = FieldText::new(string).unwrap();

    assert!(text.eq_str(string));
    assert_eq!(text.len(), string.len());
}

#[test]
fn rejects_non_printable_text() {
    assert!(FieldText::new("💀").is_none());
    assert!(FieldText::new("a\ttab").is_none());
    assert!(FieldText::new("fine text!").is_some());
}

#[test]
fn from_string_lossy_escapes() {
    let unicode_fun = "\tsome chars and ✨emojis✨ (and a quote: ')";
    let escaped = FieldText::from_string_lossy(String::from(unicode_fun));
    assert!(escaped.eq_str("\\tsome chars and \\u{2728}emojis\\u{2728} (and a quote: ')"));

    let already_valid = "all ASCII!";
    let untouched = FieldText::from_string_lossy(String::from(already_valid));
    assert!(untouched.eq_str(already_valid));
}

#[test]
fn single_flag_no_trailing_space() {
    let single_flag = PacketFlags::unencrypted();
    let output = single_flag.flag_names();

    assert_eq!(output, "UNENCRYPTED");
}

#[test]
fn two_flags_space_separated() {
    let flags = PacketFlags::from_bits(0x05).unwrap();
    let output = flags.flag_names();

    assert_eq!(output, "UNENCRYPTED SINGLE_CONNECTION");
}
