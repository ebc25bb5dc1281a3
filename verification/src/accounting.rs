//! Accounting packets: the Request body that carries start, stop and
//! watchdog records, and the Reply body the server answers with.

use vstd::prelude::*;
use crate::arguments::{count_and_lengths_bytes, encoded_values_bytes, Arguments};
use crate::fields::{AuthenticationContext, AuthenticationMethod, UserInformation};
use crate::packet::{DeserializeBody, PacketBody, PacketType, SerializeBody};
use crate::text::{chars_as_bytes, chars_of_bytes, text_is_printable, FieldText};
use crate::wire::{be16, bytes_are_printable_ascii, u16_of_be};
use crate::{DeserializeError, MinorVersion};

verus! {

/// The flag combinations an accounting request may carry. No other
/// combination of the raw start, stop and watchdog bits is constructible.
#[derive(Clone, Copy, PartialEq, Eq, Structural, Debug, Hash)]
pub enum Flags {
    /// The start of a task.
    StartRecord,
    /// The task is complete.
    StopRecord,
    /// The task still runs; no new argument values.
    WatchdogNoUpdate,
    /// An update on a long-running task with new argument values.
    WatchdogUpdate,
}

impl Flags {
    /// The raw flag byte of each combination: start is bit 1, stop bit 2,
    /// watchdog bit 3; a watchdog update sets start and watchdog together.
    pub open spec fn spec_wire_value(self) -> u8 {
        match self {
            Flags::StartRecord => 0x02,
            Flags::StopRecord => 0x04,
            Flags::WatchdogNoUpdate => 0x08,
            Flags::WatchdogUpdate => 0x0a,
        }
    }

    /// Encodes this flag combination as its wire byte.
    pub fn wire_value(self) -> (r: u8)
        ensures
            r == self.spec_wire_value(),
    {
        match self {
            Flags::StartRecord => 0x02,
            Flags::StopRecord => 0x04,
            Flags::WatchdogNoUpdate => 0x08,
            Flags::WatchdogUpdate => 0x0a,
        }
    }
}

/// An accounting request body.
#[derive(Debug, PartialEq, Eq, Hash)]
pub struct Request {
    pub flags: Flags,
    pub authentication_method: AuthenticationMethod,
    pub authentication: AuthenticationContext,
    pub user_information: UserInformation,
    pub arguments: Arguments,
}

impl Request {
    /// The well-formedness its constructor establishes.
    pub open spec fn spec_valid(&self) -> bool {
        self.user_information.valid() && self.arguments.valid()
    }

    /// Assembles an accounting request from its fields.
    pub fn new(
        flags: Flags,
        authentication_method: AuthenticationMethod,
        authentication: AuthenticationContext,
        user_information: UserInformation,
        arguments: Arguments,
    ) -> (r: Request)
        requires
            user_information.valid(),
            arguments.valid(),
        ensures
            r.flags == flags,
            r.authentication_method == authentication_method,
            r.authentication == authentication,
            r.user_information == user_information,
            r.arguments == arguments,
            r.spec_valid(),
    {
        Request { flags, authentication_method, authentication, user_information, arguments }
    }
}

impl crate::packet::Sealed for Request {

}

impl PacketBody for Request {
    open spec fn spec_packet_type() -> PacketType {
        PacketType::Accounting
    }

    fn packet_type() -> PacketType {
        PacketType::Accounting
    }

    open spec fn spec_required_minor_version(&self) -> Option<MinorVersion> {
        None
    }

    fn required_minor_version(&self) -> Option<MinorVersion> {
        None
    }
}

impl SerializeBody for Request {
    open spec fn valid(&self) -> bool {
        self.spec_valid()
    }

    /// Flags, method, the three context bytes, the three user-information
    /// length bytes, the argument count and length bytes, then the
    /// user-information values and the encoded arguments.
    open spec fn spec_wire_bytes(&self) -> Seq<u8> {
        seq![self.flags.spec_wire_value(), self.authentication_method.spec_wire_value()]
            + self.authentication.spec_wire_bytes() + self.user_information.spec_length_bytes()
            + count_and_lengths_bytes(self.arguments@) + self.user_information.spec_value_bytes()
            + encoded_values_bytes(self.arguments@)
    }

    fn wire_size(&self) -> (r: usize) {
        let r = 2 + 3 + self.user_information.wire_size() + self.arguments.wire_size();
        proof {
            assert(self.spec_wire_bytes().len() == 9 + self.arguments@.len()
                + self.user_information.spec_value_bytes().len() + encoded_values_bytes(
                self.arguments@,
            ).len());
        }
        r
    }

    fn append_wire_bytes(&self, out: &mut Vec<u8>) {
        out.push(self.flags.wire_value());
        out.push(self.authentication_method.wire_value());
        self.authentication.serialize(out);
        self.user_information.serialize_field_lengths(out);
        self.arguments.append_count_and_lengths(out);
        self.user_information.serialize_field_values(out);
        self.arguments.append_encoded_values(out);
        assert(out@ =~= old(out)@ + self.spec_wire_bytes());
    }
}

/// The status of an accounting reply.
#[derive(Debug, PartialEq, Eq, Structural, Clone, Copy, Hash)]
pub enum Status {
    /// The record was logged.
    Success,
    /// Something went wrong logging the record.
    Error,
    /// The server forwards the request to an alternative daemon, kept for
    /// compatibility though RFC 8907 deprecates it.
    Follow,
}

impl Status {
    /// The byte that stands for this status on the wire.
    pub open spec fn spec_wire_value(self) -> u8 {
        match self {
            Status::Success => 0x01,
            Status::Error => 0x02,
            Status::Follow => 0x21,
        }
    }

    /// The status a byte denotes; any unlisted byte is an invalid status.
    pub open spec fn spec_parse(value: u8) -> Result<Status, DeserializeError> {
        if value == 0x01 {
            Ok(Status::Success)
        } else if value == 0x02 {
            Ok(Status::Error)
        } else if value == 0x21 {
            Ok(Status::Follow)
        } else {
            Err(DeserializeError::InvalidStatus(value))
        }
    }

    /// Encodes this status as its wire byte.
    pub fn wire_value(self) -> (r: u8)
        ensures
            r == self.spec_wire_value(),
    {
        match self {
            Status::Success => 0x01,
            Status::Error => 0x02,
            Status::Follow => 0x21,
        }
    }

    /// Reads a status byte, rejecting unknown numbers.
    pub fn from_wire(value: u8) -> (r: Result<Status, DeserializeError>)
        ensures
            r == Status::spec_parse(value),
    {
        if value == 0x01 {
            Ok(Status::Success)
        } else if value == 0x02 {
            Ok(Status::Error)
        } else if value == 0x21 {
            Ok(Status::Follow)
        } else {
            Err(DeserializeError::InvalidStatus(value))
        }
    }
}

/// The mathematical model of an accounting reply.
pub struct ReplyView {
    /// The status the server returned.
    pub status: Status,
    /// The message meant for the user, as characters.
    pub server_message: Seq<char>,
    /// The administrative log message, as characters.
    pub data: Seq<char>,
}

/// An accounting reply body received from a server.
#[derive(PartialEq, Eq, Debug, Hash)]
pub struct Reply {
    pub status: Status,
    pub server_message: FieldText,
    pub data: FieldText,
}

impl View for Reply {
    type V = ReplyView;

    open spec fn view(&self) -> ReplyView {
        ReplyView {
            status: self.status,
            server_message: self.server_message@,
            data: self.data@,
        }
    }
}

/// The length an accounting reply body claims for itself: the five
/// required bytes plus the two lengths stored in its first four bytes.
pub open spec fn spec_reply_claimed_length(bytes: Seq<u8>) -> Result<int, DeserializeError> {
    if bytes.len() < 5 {
        Err(DeserializeError::UnexpectedEnd)
    } else {
        Ok(5 + u16_of_be(bytes[0], bytes[1]) + u16_of_be(bytes[2], bytes[3]))
    }
}

/// The wire form of an accounting reply: the two lengths, the status,
/// then the server message and data.
pub open spec fn spec_reply_wire_bytes(v: ReplyView) -> Seq<u8> {
    be16(v.server_message.len() as u16) + be16(v.data.len() as u16) + seq![
        v.status.spec_wire_value(),
    ] + chars_as_bytes(v.server_message) + chars_as_bytes(v.data)
}

impl Reply {
    /// What parsing a reply body buffer yields, checking in order: the
    /// required fields are present, the buffer length equals the claimed
    /// length, the status byte is known, and both texts are printable
    /// ASCII.
    pub open spec fn spec_parse_reply(bytes: Seq<u8>) -> Result<ReplyView, DeserializeError> {
        match spec_reply_claimed_length(bytes) {
            Err(e) => Err(e),
            Ok(total) => if total != bytes.len() {
                Err(
                    DeserializeError::WrongBodyBufferSize {
                        expected: total as usize,
                        buffer_size: bytes.len() as usize,
                    },
                )
            } else {
                match Status::spec_parse(bytes[4]) {
                    Err(e) => Err(e),
                    Ok(status) => {
                        let sml = u16_of_be(bytes[0], bytes[1]) as int;
                        let message_bytes = bytes.subrange(5, 5 + sml);
                        let data_bytes = bytes.skip(5 + sml);
                        if !bytes_are_printable_ascii(message_bytes) {
                            Err(DeserializeError::BadText)
                        } else if !bytes_are_printable_ascii(data_bytes) {
                            Err(DeserializeError::BadText)
                        } else {
                            Ok(
                                ReplyView {
                                    status,
                                    server_message: chars_of_bytes(message_bytes),
                                    data: chars_of_bytes(data_bytes),
                                },
                            )
                        }
                    },
                }
            },
        }
    }

    /// Reads the total body length an accounting reply claims from its
    /// first five bytes.
    pub fn extract_total_length(buffer: &Vec<u8>) -> (r: Result<u32, DeserializeError>)
        ensures
            match r {
                Ok(n) => spec_reply_claimed_length(buffer@) == Ok::<int, DeserializeError>(n as int),
                Err(e) => spec_reply_claimed_length(buffer@) == Err::<int, DeserializeError>(e),
            },
    {
        if buffer.len() < 5 {
            Err(DeserializeError::UnexpectedEnd)
        } else {
            let sml = crate::wire::read_u16_be(buffer, 0);
            let dl = crate::wire::read_u16_be(buffer, 2);
            Ok(5 + sml as u32 + dl as u32)
        }
    }

    /// The status the server returned.
    pub fn status(&self) -> (r: Status)
        ensures
            r == self@.status,
    {
        self.status
    }

    /// The message meant for the user.
    pub fn server_message(&self) -> (r: &FieldText)
        ensures
            r@ == self@.server_message,
    {
        &self.server_message
    }

    /// The administrative log message.
    pub fn data(&self) -> (r: &FieldText)
        ensures
            r@ == self@.data,
    {
        &self.data
    }
}

impl crate::packet::Sealed for Reply {

}

impl PacketBody for Reply {
    open spec fn spec_packet_type() -> PacketType {
        PacketType::Accounting
    }

    fn packet_type() -> PacketType {
        PacketType::Accounting
    }

    open spec fn spec_required_minor_version(&self) -> Option<MinorVersion> {
        None
    }

    fn required_minor_version(&self) -> Option<MinorVersion> {
        None
    }
}

impl DeserializeBody for Reply {
    open spec fn spec_parse(bytes: Seq<u8>) -> Result<ReplyView, DeserializeError> {
        Reply::spec_parse_reply(bytes)
    }

    fn deserialize_from_buffer(buffer: &Vec<u8>) -> (r: Result<Self, DeserializeError>) {
        let n: usize = buffer.len();
        let total = match Self::extract_total_length(buffer) {
            Ok(t) => t,
            Err(e) => {
                return Err(e);
            },
        };
        if total as usize != n {
            return Err(
                DeserializeError::WrongBodyBufferSize { expected: total as usize, buffer_size: n },
            );
        }
        let status = match Status::from_wire(buffer[4]) {
            Ok(s) => s,
            Err(e) => {
                return Err(e);
            },
        };
        let sml = crate::wire::read_u16_be(buffer, 0);
        let message_bytes = crate::wire::subvec(buffer, 5, 5 + sml as usize);
        let server_message = match FieldText::from_bytes(message_bytes) {
            Ok(t) => t,
            Err(_) => {
                return Err(DeserializeError::BadText);
            },
        };
        let data_bytes = crate::wire::subvec(buffer, 5 + sml as usize, n);
        proof {
            assert(data_bytes@ =~= buffer@.skip(5 + u16_of_be(buffer@[0], buffer@[1]) as int));
        }
        let data = match FieldText::from_bytes(data_bytes) {
            Ok(t) => t,
            Err(_) => {
                return Err(DeserializeError::BadText);
            },
        };
        Ok(Reply { status, server_message, data })
    }
}


/// Whatever reply body decodes successfully has printable texts within
/// the two-byte length bound: enough to convert it to its owned form or
/// hand it to the response mapping.
pub proof fn lemma_parse_reply_fields_valid(bytes: Seq<u8>)
    ensures
        Reply::spec_parse_reply(bytes) matches Ok(v) ==> {
            &&& text_is_printable(v.server_message)
            &&& text_is_printable(v.data)
            &&& v.server_message.len() <= 0xffff
            &&& v.data.len() <= 0xffff
        },
{
    if Reply::spec_parse_reply(bytes) is Ok {
        let sml = u16_of_be(bytes[0], bytes[1]) as int;
        crate::text::lemma_chars_of_bytes_round_trip(bytes.subrange(5, 5 + sml));
        crate::text::lemma_chars_of_bytes_round_trip(bytes.skip(5 + sml));
    }
}

/// Parsing the wire form of any reply with printable texts that fit their
/// length bytes yields the reply back.
pub proof fn lemma_reply_round_trip(v: ReplyView)
    requires
        text_is_printable(v.server_message),
        text_is_printable(v.data),
        v.server_message.len() <= 0xffff,
        v.data.len() <= 0xffff,
    ensures
        Reply::spec_parse_reply(spec_reply_wire_bytes(v)) == Ok::<ReplyView, DeserializeError>(v),
{
    let bytes = spec_reply_wire_bytes(v);
    let sml = v.server_message.len() as u16;
    let dl = v.data.len() as u16;
    crate::wire::lemma_be16_round_trip(sml);
    crate::wire::lemma_be16_round_trip(dl);
    assert(bytes[0] == be16(sml)[0] && bytes[1] == be16(sml)[1]);
    assert(bytes[2] == be16(dl)[0] && bytes[3] == be16(dl)[1]);
    assert(u16_of_be(bytes[0], bytes[1]) == sml);
    assert(u16_of_be(bytes[2], bytes[3]) == dl);
    assert(bytes.len() == 5 + sml + dl);
    crate::text::lemma_chars_as_bytes_round_trip(v.server_message);
    crate::text::lemma_chars_as_bytes_round_trip(v.data);
    assert(bytes.subrange(5, 5 + sml as int) =~= chars_as_bytes(v.server_message));
    assert(bytes.skip(5 + sml as int) =~= chars_as_bytes(v.data));
    assert(bytes[4] == v.status.spec_wire_value());
    assert(Status::spec_parse(v.status.spec_wire_value()) == Ok::<Status, DeserializeError>(
        v.status,
    ));
}


impl SerializeBody for Reply {
    /// A reply can be put back on the wire when its texts are printable
    /// and fit their length bytes.
    open spec fn valid(&self) -> bool {
        &&& text_is_printable(self@.server_message)
        &&& text_is_printable(self@.data)
        &&& self@.server_message.len() <= 0xffff
        &&& self@.data.len() <= 0xffff
    }

    open spec fn spec_wire_bytes(&self) -> Seq<u8> {
        spec_reply_wire_bytes(self@)
    }

    fn wire_size(&self) -> (r: usize) {
        proof {
            assert(spec_reply_wire_bytes(self@).len() == 5 + self@.server_message.len()
                + self@.data.len());
        }
        5 + self.server_message.len() + self.data.len()
    }

    fn append_wire_bytes(&self, out: &mut Vec<u8>) {
        crate::wire::push_u16_be(out, self.server_message.len() as u16);
        crate::wire::push_u16_be(out, self.data.len() as u16);
        out.push(self.status.wire_value());
        crate::wire::push_bytes(out, self.server_message.as_bytes());
        crate::wire::push_bytes(out, self.data.as_bytes());
        assert(out@ =~= old(out)@ + spec_reply_wire_bytes(self@));
    }
}

/// Round trip at the packet level: an accounting reply packet serialized
/// in cleartext, or obfuscated under any secret, deserializes back to the
/// same header (with the unencrypted flag as serialization leaves it) and
/// the same reply.
pub proof fn lemma_packet_round_trip(p: crate::packet::Packet<Reply>, key: Seq<u8>)
    requires
        p.body.valid(),
        p.header.flags.valid(),
    ensures
        crate::packet::spec_parse_packet_cleartext::<Reply>(p.spec_serialized_cleartext())
            == Ok::<(crate::packet::HeaderInfo, ReplyView), crate::DeserializeError>(
            (
                crate::packet::HeaderInfo {
                    flags: crate::packet::PacketFlags { bits: p.header.flags.bits | 0x01 },
                    ..p.header
                },
                p.body@,
            ),
        ),
        crate::packet::spec_parse_packet_obfuscated::<Reply>(
            key,
            p.spec_serialized_obfuscated(key),
        ) == Ok::<(crate::packet::HeaderInfo, ReplyView), crate::DeserializeError>(
            (
                crate::packet::HeaderInfo {
                    flags: crate::packet::PacketFlags { bits: p.header.flags.bits & 0xfe },
                    ..p.header
                },
                p.body@,
            ),
        ),
{
    lemma_reply_round_trip(p.body@);
    crate::packet::lemma_packet_round_trip_cleartext::<Reply>(p, p.body@);
    crate::packet::lemma_packet_round_trip_obfuscated::<Reply>(p, p.body@, key);
}

/// An accounting reply whose fields are ordinary owned values.
#[derive(Debug, Clone, PartialEq, Eq, Hash)]
pub struct ReplyOwned {
    /// The status the server returned.
    pub status: Status,
    /// The message to display to the user.
    pub server_message: String,
    /// The administrative log message.
    pub data: String,
}

impl Reply {
    /// Converts the reply into one that holds ordinary owned values.
    pub fn to_owned(&self) -> (r: ReplyOwned)
        requires
            text_is_printable(self@.server_message),
            text_is_printable(self@.data),
        ensures
            r.status == self@.status,
            r.server_message@ == self@.server_message,
            r.data@ == self@.data,
    {
        ReplyOwned {
            status: self.status,
            server_message: self.server_message.to_string_value(),
            data: self.data.to_string_value(),
        }
    }
}

} // verus!
