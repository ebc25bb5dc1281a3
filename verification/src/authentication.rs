//! Authentication packets: the Start body that opens a session, the
//! Continue body of multi-turn exchanges, and the Reply body a server
//! answers with.

use vstd::prelude::*;
use crate::fields::{AuthenticationContext, AuthenticationType, UserInformation};
use crate::packet::{DeserializeBody, PacketBody, PacketType, SerializeBody};
use crate::text::{chars_as_bytes, chars_of_bytes, text_is_printable, FieldText};
use crate::wire::{be16, bytes_are_printable_ascii, u16_of_be};
use crate::{DeserializeError, MinorVersion};

verus! {

/// The action requested when an authentication session starts.
#[derive(Clone, Copy, PartialEq, Eq, Structural, Debug, Hash)]
pub enum Action {
    /// A login request.
    Login,
    /// A password change request.
    ChangePassword,
    /// An outbound authentication request, kept for compatibility though
    /// RFC 8907 warns against it.
    SendAuth,
}

impl Action {
    /// The byte that stands for this action on the wire.
    pub open spec fn spec_wire_value(self) -> u8 {
        match self {
            Action::Login => 0x01,
            Action::ChangePassword => 0x02,
            Action::SendAuth => 0x04,
        }
    }

    /// Encodes this action as its wire byte.
    pub fn wire_value(self) -> (r: u8)
        ensures
            r == self.spec_wire_value(),
    {
        match self {
            Action::Login => 0x01,
            Action::ChangePassword => 0x02,
            Action::SendAuth => 0x04,
        }
    }
}

/// The status a server returns in an authentication reply.
#[derive(Debug, Clone, Copy, PartialEq, Eq, Structural, Hash)]
pub enum Status {
    /// Authentication succeeded.
    Pass,
    /// Authentication failed.
    Fail,
    /// The server asks for more domain-specific data.
    GetData,
    /// The server asks for the user name.
    GetUser,
    /// The server asks for the password.
    GetPassword,
    /// The server asks the client to restart the session.
    Restart,
    /// A server-side error while authenticating.
    Error,
    /// The server forwards the request to an alternative daemon, kept for
    /// compatibility though RFC 8907 deprecates it.
    Follow,
}

impl Status {
    /// The byte that stands for this status on the wire.
    pub open spec fn spec_wire_value(self) -> u8 {
        match self {
            Status::Pass => 0x01,
            Status::Fail => 0x02,
            Status::GetData => 0x03,
            Status::GetUser => 0x04,
            Status::GetPassword => 0x05,
            Status::Restart => 0x06,
            Status::Error => 0x07,
            Status::Follow => 0x21,
        }
    }

    /// The status a byte denotes; any unlisted byte is an invalid status.
    pub open spec fn spec_parse(value: u8) -> Result<Status, DeserializeError> {
        if value == 0x01 {
            Ok(Status::Pass)
        } else if value == 0x02 {
            Ok(Status::Fail)
        } else if value == 0x03 {
            Ok(Status::GetData)
        } else if value == 0x04 {
            Ok(Status::GetUser)
        } else if value == 0x05 {
            Ok(Status::GetPassword)
        } else if value == 0x06 {
            Ok(Status::Restart)
        } else if value == 0x07 {
            Ok(Status::Error)
        } else if value == 0x21 {
            Ok(Status::Follow)
        } else {
            Err(DeserializeError::InvalidStatus(value))
        }
    }

    /// Encodes this status as its wire byte.
    pub fn wire_value(self) -> (r: u8)
        ensures
            r == self.spec_wire_value(),
    {
        match self {
            Status::Pass => 0x01,
            Status::Fail => 0x02,
            Status::GetData => 0x03,
            Status::GetUser => 0x04,
            Status::GetPassword => 0x05,
            Status::Restart => 0x06,
            Status::Error => 0x07,
            Status::Follow => 0x21,
        }
    }

    /// Reads a status byte, rejecting unknown numbers.
    pub fn from_wire(value: u8) -> (r: Result<Status, DeserializeError>)
        ensures
            r == Status::spec_parse(value),
    {
        if value == 0x01 {
            Ok(Status::Pass)
        } else if value == 0x02 {
            Ok(Status::Fail)
        } else if value == 0x03 {
            Ok(Status::GetData)
        } else if value == 0x04 {
            Ok(Status::GetUser)
        } else if value == 0x05 {
            Ok(Status::GetPassword)
        } else if value == 0x06 {
            Ok(Status::Restart)
        } else if value == 0x07 {
            Ok(Status::Error)
        } else if value == 0x21 {
            Ok(Status::Follow)
        } else {
            Err(DeserializeError::InvalidStatus(value))
        }
    }
}

/// The supplementary data field of a Start body, bounded so its length
/// fits in one byte.
#[derive(Debug, Clone, PartialEq, Eq, Hash)]
pub struct PacketData {
    pub data: Vec<u8>,
}

/// The error returned when supplementary data is longer than one length
/// byte can describe.
#[derive(Debug, PartialEq, Eq, Structural, Clone, Copy, Hash)]
pub struct DataTooLong;

impl PacketData {
    /// The bound every `PacketData` satisfies.
    pub open spec fn valid(&self) -> bool {
        self.data@.len() <= 255
    }

    /// An empty data field.
    pub fn new() -> (r: PacketData)
        ensures
            r.data@.len() == 0,
            r.valid(),
    {
        PacketData { data: Vec::new() }
    }

    /// Wraps a byte vector whose length fits in one byte, rejecting a
    /// longer one.
    pub fn from_vec(data: Vec<u8>) -> (r: Result<PacketData, DataTooLong>)
        ensures
            match r {
                Ok(d) => data@.len() <= 255 && d.data@ == data@ && d.valid(),
                Err(e) => data@.len() > 255 && e == DataTooLong,
            },
    {
        if data.len() <= 255 {
            Ok(PacketData { data })
        } else {
            Err(DataTooLong)
        }
    }

    /// The length of the data, which fits in one byte.
    pub fn len(&self) -> (r: u8)
        requires
            self.valid(),
        ensures
            r == self.data@.len(),
    {
        self.data.len() as u8
    }

    /// The data bytes.
    pub fn as_bytes(&self) -> (r: &Vec<u8>)
        ensures
            r@ == self.data@,
    {
        &self.data
    }
}

/// A reason a Start body cannot be built.
#[non_exhaustive]
#[derive(Debug, PartialEq, Eq, Structural, Clone, Copy, Hash)]
pub enum BadStart {
    /// The data field was too long to encode in one length byte.
    DataTooLong,
    /// The authentication type was not set, which authentication packets
    /// do not allow.
    AuthTypeNotSet,
    /// The action and authentication type cannot be combined.
    IncompatibleActionAndType,
}

/// The legal action and type combinations of RFC 8907: ASCII pairs with
/// Login and ChangePassword only; ChangePassword pairs with ASCII only;
/// every other set type pairs with Login and SendAuth.
pub open spec fn spec_action_and_type_compatible(auth_type: AuthenticationType, action: Action) -> bool {
    match (auth_type, action) {
        (AuthenticationType::NotSet, _) => false,
        (AuthenticationType::Ascii, Action::Login) => true,
        (AuthenticationType::Ascii, Action::ChangePassword) => true,
        (AuthenticationType::Ascii, Action::SendAuth) => false,
        (_, Action::ChangePassword) => false,
        _ => true,
    }
}

/// An authentication Start body, which opens an authentication session.
#[derive(Debug, PartialEq, Eq, Hash)]
pub struct Start {
    pub action: Action,
    pub authentication: AuthenticationContext,
    pub user_information: UserInformation,
    pub data: Vec<u8>,
}

impl Start {
    /// The well-formedness its constructor establishes.
    pub open spec fn spec_valid(&self) -> bool {
        &&& self.data@.len() <= 255
        &&& self.user_information.valid()
        &&& self.authentication.authentication_type != AuthenticationType::NotSet
        &&& spec_action_and_type_compatible(self.authentication.authentication_type, self.action)
    }

    /// Builds a Start body, rejecting over-long data, an unset
    /// authentication type, and an illegal action/type combination, in
    /// that order.
    pub fn new(
        action: Action,
        authentication: AuthenticationContext,
        user_information: UserInformation,
        data: Option<Vec<u8>>,
    ) -> (r: Result<Start, BadStart>)
        requires
            user_information.valid(),
        ensures
            ({
                let data_view = match data {
                    Some(d) => d@,
                    None => Seq::<u8>::empty(),
                };
                match r {
                    Ok(s) => {
                        &&& data_view.len() <= 255
                        &&& authentication.authentication_type != AuthenticationType::NotSet
                        &&& spec_action_and_type_compatible(
                            authentication.authentication_type,
                            action,
                        )
                        &&& s.action == action
                        &&& s.authentication == authentication
                        &&& s.user_information == user_information
                        &&& s.data@ == data_view
                        &&& s.spec_valid()
                    },
                    Err(BadStart::DataTooLong) => data_view.len() > 255,
                    Err(BadStart::AuthTypeNotSet) => data_view.len() <= 255
                        && authentication.authentication_type == AuthenticationType::NotSet,
                    Err(BadStart::IncompatibleActionAndType) => data_view.len() <= 255
                        && authentication.authentication_type != AuthenticationType::NotSet
                        && !spec_action_and_type_compatible(
                        authentication.authentication_type,
                        action,
                    ),
                }
            }),
    {
        let data = match data {
            Some(d) => d,
            None => Vec::new(),
        };
        if data.len() > 255 {
            Err(BadStart::DataTooLong)
        } else if authentication.authentication_type == AuthenticationType::NotSet {
            Err(BadStart::AuthTypeNotSet)
        } else if !Self::action_and_type_compatible(authentication.authentication_type, action) {
            Err(BadStart::IncompatibleActionAndType)
        } else {
            Ok(Start { action, authentication, user_information, data })
        }
    }

    /// Whether the action and authentication type may be combined.
    pub fn action_and_type_compatible(auth_type: AuthenticationType, action: Action) -> (r: bool)
        ensures
            r == spec_action_and_type_compatible(auth_type, action),
    {
        match (auth_type, action) {
            (AuthenticationType::NotSet, _) => false,
            (AuthenticationType::Ascii, Action::Login) => true,
            (AuthenticationType::Ascii, Action::ChangePassword) => true,
            (AuthenticationType::Ascii, Action::SendAuth) => false,
            (_, Action::ChangePassword) => false,
            _ => true,
        }
    }
}

impl crate::packet::Sealed for Start {

}

impl PacketBody for Start {
    open spec fn spec_packet_type() -> PacketType {
        PacketType::Authentication
    }

    fn packet_type() -> PacketType {
        PacketType::Authentication
    }

    /// ASCII authentication demands the default minor version; every
    /// other type demands minor version 1.
    open spec fn spec_required_minor_version(&self) -> Option<MinorVersion> {
        match self.authentication.authentication_type {
            AuthenticationType::Ascii => Some(MinorVersion::Default),
            _ => Some(MinorVersion::V1),
        }
    }

    fn required_minor_version(&self) -> Option<MinorVersion> {
        match self.authentication.authentication_type {
            AuthenticationType::Ascii => Some(MinorVersion::Default),
            _ => Some(MinorVersion::V1),
        }
    }
}

impl SerializeBody for Start {
    open spec fn valid(&self) -> bool {
        self.spec_valid()
    }

    /// Action, the three context bytes, the four length bytes, then the
    /// user information values and the data.
    open spec fn spec_wire_bytes(&self) -> Seq<u8> {
        seq![self.action.spec_wire_value()] + self.authentication.spec_wire_bytes()
            + self.user_information.spec_length_bytes() + seq![self.data@.len() as u8]
            + self.user_information.spec_value_bytes() + self.data@
    }

    fn wire_size(&self) -> (r: usize) {
        let r = 1 + 3 + self.user_information.wire_size() + 1 + self.data.len();
        proof {
            assert(self.spec_wire_bytes().len() == 8 + self.user_information.spec_value_bytes().len()
                + self.data@.len());
        }
        r
    }

    fn append_wire_bytes(&self, out: &mut Vec<u8>) {
        out.push(self.action.wire_value());
        self.authentication.serialize(out);
        self.user_information.serialize_field_lengths(out);
        out.push(self.data.len() as u8);
        self.user_information.serialize_field_values(out);
        crate::wire::push_bytes(out, &self.data);
        assert(out@ =~= old(out)@ + self.spec_wire_bytes());
    }
}

/// Flags of an authentication reply.
#[derive(Debug, PartialEq, Eq, Structural, Clone, Copy, Hash)]
pub struct ReplyFlags {
    pub bits: u8,
}

impl ReplyFlags {
    /// Whether only the one known flag bit is set.
    pub open spec fn valid(self) -> bool {
        self.bits & 0xfe == 0
    }

    /// Whether the no-echo flag is set: the client must not display user
    /// input.
    pub open spec fn spec_no_echo(self) -> bool {
        self.bits & 0x01 == 0x01
    }

    /// No flags set.
    pub fn none() -> (r: ReplyFlags)
        ensures
            r.bits == 0,
            r.valid(),
    {
        proof {
            assert(0u8 & 0xfe == 0) by (bit_vector);
        }
        ReplyFlags { bits: 0 }
    }

    /// Reads a flag byte, rejecting any reserved bit.
    pub fn from_bits(bits: u8) -> (r: Option<ReplyFlags>)
        ensures
            match r {
                Some(f) => f.bits == bits && f.valid(),
                None => bits & 0xfe != 0,
            },
    {
        if bits & 0xfe == 0 {
            Some(ReplyFlags { bits })
        } else {
            None
        }
    }

    /// Whether the no-echo flag is set.
    pub fn no_echo(self) -> (r: bool)
        ensures
            r == self.spec_no_echo(),
    {
        self.bits & 0x01 == 0x01
    }
}

/// Flags of an authentication continue body.
#[derive(Debug, PartialEq, Eq, Structural, Clone, Copy, Hash)]
pub struct ContinueFlags {
    pub bits: u8,
}

impl ContinueFlags {
    /// No flags set.
    pub fn none() -> (r: ContinueFlags)
        ensures
            r.bits == 0,
    {
        ContinueFlags { bits: 0 }
    }

    /// Only the abort flag set: the client abandons the session.
    pub fn abort() -> (r: ContinueFlags)
        ensures
            r.bits == 0x01,
    {
        ContinueFlags { bits: 0x01 }
    }
}

/// An authentication continue body, sent by the client during a
/// multi-turn exchange.
#[derive(Debug, PartialEq, Eq, Hash)]
pub struct Continue {
    pub user_message: Vec<u8>,
    pub data: Vec<u8>,
    pub flags: ContinueFlags,
}

impl Continue {
    /// The bounds its constructor establishes: both payloads fit in a
    /// two-byte length field.
    pub open spec fn spec_valid(&self) -> bool {
        self.user_message@.len() <= 0xffff && self.data@.len() <= 0xffff
    }

    /// Builds a continue body, rejecting a user message or data field
    /// longer than a two-byte length can describe.
    pub fn new(user_message: Option<Vec<u8>>, data: Option<Vec<u8>>, flags: ContinueFlags) -> (r:
        Option<Continue>)
        ensures
            ({
                let um = match user_message {
                    Some(m) => m@,
                    None => Seq::<u8>::empty(),
                };
                let dv = match data {
                    Some(d) => d@,
                    None => Seq::<u8>::empty(),
                };
                match r {
                    Some(c) => {
                        &&& um.len() <= 0xffff
                        &&& dv.len() <= 0xffff
                        &&& c.user_message@ == um
                        &&& c.data@ == dv
                        &&& c.flags == flags
                        &&& c.spec_valid()
                    },
                    None => um.len() > 0xffff || dv.len() > 0xffff,
                }
            }),
    {
        let user_message = match user_message {
            Some(m) => m,
            None => Vec::new(),
        };
        let data = match data {
            Some(d) => d,
            None => Vec::new(),
        };
        if user_message.len() <= 0xffff && data.len() <= 0xffff {
            Some(Continue { user_message, data, flags })
        } else {
            None
        }
    }
}

impl crate::packet::Sealed for Continue {

}

impl PacketBody for Continue {
    open spec fn spec_packet_type() -> PacketType {
        PacketType::Authentication
    }

    fn packet_type() -> PacketType {
        PacketType::Authentication
    }

    open spec fn spec_required_minor_version(&self) -> Option<MinorVersion> {
        None
    }

    fn required_minor_version(&self) -> Option<MinorVersion> {
        None
    }
}

impl SerializeBody for Continue {
    open spec fn valid(&self) -> bool {
        self.spec_valid()
    }

    /// The two payload lengths, the flag byte, then the payloads.
    open spec fn spec_wire_bytes(&self) -> Seq<u8> {
        be16(self.user_message@.len() as u16) + be16(self.data@.len() as u16) + seq![
            self.flags.bits,
        ] + self.user_message@ + self.data@
    }

    fn wire_size(&self) -> (r: usize) {
        5 + self.user_message.len() + self.data.len()
    }

    fn append_wire_bytes(&self, out: &mut Vec<u8>) {
        crate::wire::push_u16_be(out, self.user_message.len() as u16);
        crate::wire::push_u16_be(out, self.data.len() as u16);
        out.push(self.flags.bits);
        crate::wire::push_bytes(out, &self.user_message);
        crate::wire::push_bytes(out, &self.data);
        assert(out@ =~= old(out)@ + self.spec_wire_bytes());
    }
}

/// The mathematical model of an authentication reply.
pub struct ReplyView {
    /// The status the server returned.
    pub status: Status,
    /// The message meant for the user, as characters.
    pub server_message: Seq<char>,
    /// The domain-specific data bytes.
    pub data: Seq<u8>,
    /// The reply flags.
    pub flags: ReplyFlags,
}

/// An authentication reply body received from a server.
#[derive(Debug, PartialEq, Eq, Hash)]
pub struct Reply {
    pub status: Status,
    pub server_message: FieldText,
    pub data: Vec<u8>,
    pub flags: ReplyFlags,
}

impl View for Reply {
    type V = ReplyView;

    open spec fn view(&self) -> ReplyView {
        ReplyView {
            status: self.status,
            server_message: self.server_message@,
            data: self.data@,
            flags: self.flags,
        }
    }
}

/// The length an authentication reply body claims for itself: the six
/// required bytes plus the two lengths stored in bytes 2 to 5. `Err` when
/// the buffer cannot hold the required fields.
pub open spec fn spec_reply_claimed_length(bytes: Seq<u8>) -> Result<int, DeserializeError> {
    if bytes.len() < 6 {
        Err(DeserializeError::UnexpectedEnd)
    } else {
        Ok(6 + u16_of_be(bytes[2], bytes[3]) + u16_of_be(bytes[4], bytes[5]))
    }
}

/// The wire form of an authentication reply: status, flags, the two
/// lengths, then the server message and data.
pub open spec fn spec_reply_wire_bytes(v: ReplyView) -> Seq<u8> {
    seq![v.status.spec_wire_value(), v.flags.bits] + be16(v.server_message.len() as u16) + be16(
        v.data.len() as u16,
    ) + chars_as_bytes(v.server_message) + v.data
}

impl Reply {
    /// What parsing a reply body buffer yields, checking in order: the
    /// required fields are present, the buffer length equals the claimed
    /// length, the status byte is known, the flag byte has no reserved
    /// bit, and the server message is printable ASCII.
    pub open spec fn spec_parse_reply(bytes: Seq<u8>) -> Result<ReplyView, DeserializeError> {
        match spec_reply_claimed_length(bytes) {
            Err(e) => Err(e),
            Ok(total) => if total != bytes.len() {
                Err(
                    DeserializeError::WrongBodyBufferSize {
                        expected: total as usize,
                        buffer_size: bytes.len() as usize,
                    },
                )
            } else {
                match Status::spec_parse(bytes[0]) {
                    Err(e) => Err(e),
                    Ok(status) => if bytes[1] & 0xfe != 0 {
                        Err(DeserializeError::InvalidBodyFlags(bytes[1]))
                    } else {
                        let sml = u16_of_be(bytes[2], bytes[3]) as int;
                        let message_bytes = bytes.subrange(6, 6 + sml);
                        if !bytes_are_printable_ascii(message_bytes) {
                            Err(DeserializeError::BadText)
                        } else {
                            Ok(
                                ReplyView {
                                    status,
                                    server_message: chars_of_bytes(message_bytes),
                                    data: bytes.skip(6 + sml),
                                    flags: ReplyFlags { bits: bytes[1] },
                                },
                            )
                        }
                    },
                }
            },
        }
    }

    /// Reads the total body length an authentication reply claims from
    /// its first six bytes.
    pub fn extract_total_length(buffer: &Vec<u8>) -> (r: Result<u32, DeserializeError>)
        ensures
            match r {
                Ok(n) => spec_reply_claimed_length(buffer@) == Ok::<int, DeserializeError>(n as int),
                Err(e) => spec_reply_claimed_length(buffer@) == Err::<int, DeserializeError>(e),
            },
    {
        if buffer.len() < 6 {
            Err(DeserializeError::UnexpectedEnd)
        } else {
            let sml = crate::wire::read_u16_be(buffer, 2);
            let dl = crate::wire::read_u16_be(buffer, 4);
            Ok(6 + sml as u32 + dl as u32)
        }
    }

    /// The status the server returned.
    pub fn status(&self) -> (r: Status)
        ensures
            r == self@.status,
    {
        self.status
    }

    /// The message meant for the user.
    pub fn server_message(&self) -> (r: &FieldText)
        ensures
            r@ == self@.server_message,
    {
        &self.server_message
    }

    /// The domain-specific data.
    pub fn data(&self) -> (r: &Vec<u8>)
        ensures
            r@ == self@.data,
    {
        &self.data
    }

    /// The reply flags.
    pub fn flags(&self) -> (r: ReplyFlags)
        ensures
            r == self@.flags,
    {
        self.flags
    }
}

impl crate::packet::Sealed for Reply {

}

impl PacketBody for Reply {
    open spec fn spec_packet_type() -> PacketType {
        PacketType::Authentication
    }

    fn packet_type() -> PacketType {
        PacketType::Authentication
    }

    open spec fn spec_required_minor_version(&self) -> Option<MinorVersion> {
        None
    }

    fn required_minor_version(&self) -> Option<MinorVersion> {
        None
    }
}

impl DeserializeBody for Reply {
    open spec fn spec_parse(bytes: Seq<u8>) -> Result<ReplyView, DeserializeError> {
        Reply::spec_parse_reply(bytes)
    }

    fn deserialize_from_buffer(buffer: &Vec<u8>) -> (r: Result<Self, DeserializeError>) {
        let n: usize = buffer.len();
        let total = match Self::extract_total_length(buffer) {
            Ok(t) => t,
            Err(e) => {
                return Err(e);
            },
        };
        if total as usize != n {
            return Err(
                DeserializeError::WrongBodyBufferSize { expected: total as usize, buffer_size: n },
            );
        }
        let status = match Status::from_wire(buffer[0]) {
            Ok(s) => s,
            Err(e) => {
                return Err(e);
            },
        };
        let flags = match ReplyFlags::from_bits(buffer[1]) {
            Some(f) => f,
            None => {
                return Err(DeserializeError::InvalidBodyFlags(buffer[1]));
            },
        };
        let sml = crate::wire::read_u16_be(buffer, 2);
        let message_bytes = crate::wire::subvec(buffer, 6, 6 + sml as usize);
        let server_message = match FieldText::from_bytes(message_bytes) {
            Ok(t) => t,
            Err(_) => {
                return Err(DeserializeError::BadText);
            },
        };
        let data = crate::wire::subvec(buffer, 6 + sml as usize, n);
        proof {
            assert(buffer@.subrange(6, 6 + u16_of_be(buffer@[2], buffer@[3]) as int) =~= buffer@
                .subrange(6, 6 + sml as int));
            assert(data@ =~= buffer@.skip(6 + u16_of_be(buffer@[2], buffer@[3]) as int));
        }
        Ok(Reply { status, server_message, data, flags })
    }
}


/// Whatever reply body decodes successfully has a printable server
/// message within the two-byte length bound, data within the bound, and
/// valid flags: enough to convert it to its owned form or hand it to the
/// response mapping.
pub proof fn lemma_parse_reply_fields_valid(bytes: Seq<u8>)
    ensures
        Reply::spec_parse_reply(bytes) matches Ok(v) ==> {
            &&& text_is_printable(v.server_message)
            &&& v.server_message.len() <= 0xffff
            &&& v.data.len() <= 0xffff
            &&& v.flags.valid()
        },
{
    if Reply::spec_parse_reply(bytes) is Ok {
        let sml = u16_of_be(bytes[2], bytes[3]) as int;
        crate::text::lemma_chars_of_bytes_round_trip(bytes.subrange(6, 6 + sml));
    }
}

/// Parsing the wire form of any reply whose message is printable, whose
/// flags are valid, and whose fields fit their length bytes yields the
/// reply back.
pub proof fn lemma_reply_round_trip(v: ReplyView)
    requires
        text_is_printable(v.server_message),
        v.server_message.len() <= 0xffff,
        v.data.len() <= 0xffff,
        v.flags.valid(),
    ensures
        Reply::spec_parse_reply(spec_reply_wire_bytes(v)) == Ok::<ReplyView, DeserializeError>(v),
{
    let bytes = spec_reply_wire_bytes(v);
    let sml = v.server_message.len() as u16;
    let dl = v.data.len() as u16;
    crate::wire::lemma_be16_round_trip(sml);
    crate::wire::lemma_be16_round_trip(dl);
    assert(bytes[2] == be16(sml)[0] && bytes[3] == be16(sml)[1]);
    assert(bytes[4] == be16(dl)[0] && bytes[5] == be16(dl)[1]);
    assert(u16_of_be(bytes[2], bytes[3]) == sml);
    assert(u16_of_be(bytes[4], bytes[5]) == dl);
    assert(bytes.len() == 6 + sml + dl);
    crate::text::lemma_chars_as_bytes_round_trip(v.server_message);
    assert(bytes.subrange(6, 6 + sml as int) =~= chars_as_bytes(v.server_message));
    assert(bytes.skip(6 + sml as int) =~= v.data);
    assert(bytes[0] == v.status.spec_wire_value());
    assert(Status::spec_parse(v.status.spec_wire_value()) == Ok::<Status, DeserializeError>(
        v.status,
    ));
    assert(bytes[1] == v.flags.bits);
    assert(chars_of_bytes(chars_as_bytes(v.server_message)) == v.server_message);
}


impl SerializeBody for Reply {
    /// A reply can be put back on the wire when its texts are printable,
    /// its fields fit their length bytes, and its flags are valid.
    open spec fn valid(&self) -> bool {
        &&& text_is_printable(self@.server_message)
        &&& self@.server_message.len() <= 0xffff
        &&& self@.data.len() <= 0xffff
        &&& self@.flags.valid()
    }

    open spec fn spec_wire_bytes(&self) -> Seq<u8> {
        spec_reply_wire_bytes(self@)
    }

    fn wire_size(&self) -> (r: usize) {
        proof {
            assert(spec_reply_wire_bytes(self@).len() == 6 + self@.server_message.len()
                + self@.data.len());
        }
        6 + self.server_message.len() + self.data.len()
    }

    fn append_wire_bytes(&self, out: &mut Vec<u8>) {
        out.push(self.status.wire_value());
        out.push(self.flags.bits);
        crate::wire::push_u16_be(out, self.server_message.len() as u16);
        crate::wire::push_u16_be(out, self.data.len() as u16);
        crate::wire::push_bytes(out, self.server_message.as_bytes());
        crate::wire::push_bytes(out, &self.data);
        assert(out@ =~= old(out)@ + spec_reply_wire_bytes(self@));
    }
}

/// Round trip at the packet level: a reply packet serialized in
/// cleartext, or obfuscated under any secret, deserializes back to the
/// same header (with the unencrypted flag as serialization leaves it)
/// and the same reply.
pub proof fn lemma_packet_round_trip(p: crate::packet::Packet<Reply>, key: Seq<u8>)
    requires
        p.body.valid(),
        p.header.flags.valid(),
    ensures
        crate::packet::spec_parse_packet_cleartext::<Reply>(p.spec_serialized_cleartext())
            == Ok::<(crate::packet::HeaderInfo, ReplyView), crate::DeserializeError>(
            (
                crate::packet::HeaderInfo {
                    flags: crate::packet::PacketFlags { bits: p.header.flags.bits | 0x01 },
                    ..p.header
                },
                p.body@,
            ),
        ),
        crate::packet::spec_parse_packet_obfuscated::<Reply>(
            key,
            p.spec_serialized_obfuscated(key),
        ) == Ok::<(crate::packet::HeaderInfo, ReplyView), crate::DeserializeError>(
            (
                crate::packet::HeaderInfo {
                    flags: crate::packet::PacketFlags { bits: p.header.flags.bits & 0xfe },
                    ..p.header
                },
                p.body@,
            ),
        ),
{
    lemma_reply_round_trip(p.body@);
    crate::packet::lemma_packet_round_trip_cleartext::<Reply>(p, p.body@);
    crate::packet::lemma_packet_round_trip_obfuscated::<Reply>(p, p.body@, key);
}

/// An authentication reply whose fields are ordinary owned values.
#[derive(Debug, Clone, PartialEq, Eq, Hash)]
pub struct ReplyOwned {
    /// The status the server returned.
    pub status: Status,
    /// The flags set in the server response.
    pub flags: ReplyFlags,
    /// The message to display to the user.
    pub server_message: String,
    /// The domain-specific data included in the reply.
    pub data: Vec<u8>,
}

impl Reply {
    /// Converts the reply into one that holds ordinary owned values.
    pub fn to_owned(&self) -> (r: ReplyOwned)
        requires
            text_is_printable(self@.server_message),
        ensures
            r.status == self@.status,
            r.flags == self@.flags,
            r.server_message@ == self@.server_message,
            r.data@ == self@.data,
    {
        ReplyOwned {
            status: self.status,
            flags: self.flags,
            server_message: self.server_message.to_string_value(),
            data: self.data.clone(),
        }
    }
}

} // verus!
