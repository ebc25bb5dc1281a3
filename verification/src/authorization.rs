//! Authorization packets: the Request body the client sends and the
//! Reply body the server answers with, arguments included.

use vstd::prelude::*;
use crate::arguments::{
    all_arguments_valid, argument_view_valid, argument_wire_bytes, count_and_lengths_bytes,
    encoded_values_bytes, lemma_argument_round_trip, lemma_encoded_values_push, spec_parse_argument,
    Argument, ArgumentOwned, Arguments, ArgumentView, InvalidArgument,
};
use crate::fields::{AuthenticationContext, AuthenticationMethod, UserInformation};
use crate::packet::{DeserializeBody, PacketBody, PacketType, SerializeBody};
use crate::text::{chars_as_bytes, chars_of_bytes, text_is_printable, FieldText};
use crate::wire::{be16, bytes_are_printable_ascii, u16_of_be};
use crate::{DeserializeError, MinorVersion};

verus! {

/// An authorization request body.
#[derive(Debug, PartialEq, Eq, Hash)]
pub struct Request {
    pub method: AuthenticationMethod,
    pub authentication_context: AuthenticationContext,
    pub user_information: UserInformation,
    pub arguments: Arguments,
}

impl Request {
    /// The well-formedness its constructor establishes.
    pub open spec fn spec_valid(&self) -> bool {
        self.user_information.valid() && self.arguments.valid()
    }

    /// Assembles an authorization request from its fields.
    pub fn new(
        method: AuthenticationMethod,
        authentication_context: AuthenticationContext,
        user_information: UserInformation,
        arguments: Arguments,
    ) -> (r: Request)
        requires
            user_information.valid(),
            arguments.valid(),
        ensures
            r.method == method,
            r.authentication_context == authentication_context,
            r.user_information == user_information,
            r.arguments == arguments,
            r.spec_valid(),
    {
        Request { method, authentication_context, user_information, arguments }
    }
}

impl crate::packet::Sealed for Request {

}

impl PacketBody for Request {
    open spec fn spec_packet_type() -> PacketType {
        PacketType::Authorization
    }

    fn packet_type() -> PacketType {
        PacketType::Authorization
    }

    open spec fn spec_required_minor_version(&self) -> Option<MinorVersion> {
        None
    }

    fn required_minor_version(&self) -> Option<MinorVersion> {
        None
    }
}

impl SerializeBody for Request {
    open spec fn valid(&self) -> bool {
        self.spec_valid()
    }

    /// Method, the three context bytes, the three user-information length
    /// bytes, the argument count and length bytes, then the
    /// user-information values and the encoded arguments.
    open spec fn spec_wire_bytes(&self) -> Seq<u8> {
        seq![self.method.spec_wire_value()] + self.authentication_context.spec_wire_bytes()
            + self.user_information.spec_length_bytes() + count_and_lengths_bytes(self.arguments@)
            + self.user_information.spec_value_bytes() + encoded_values_bytes(self.arguments@)
    }

    fn wire_size(&self) -> (r: usize) {
        let r = 1 + 3 + self.user_information.wire_size() + self.arguments.wire_size();
        proof {
            assert(self.spec_wire_bytes().len() == 8 + self.arguments@.len()
                + self.user_information.spec_value_bytes().len() + encoded_values_bytes(
                self.arguments@,
            ).len());
        }
        r
    }

    fn append_wire_bytes(&self, out: &mut Vec<u8>) {
        out.push(self.method.wire_value());
        self.authentication_context.serialize(out);
        self.user_information.serialize_field_lengths(out);
        self.arguments.append_count_and_lengths(out);
        self.user_information.serialize_field_values(out);
        self.arguments.append_encoded_values(out);
        assert(out@ =~= old(out)@ + self.spec_wire_bytes());
    }
}

/// The status of an authorization reply.
#[derive(PartialEq, Eq, Structural, Debug, Clone, Copy, Hash)]
pub enum Status {
    /// Authorization passed; the server may add arguments.
    PassAdd,
    /// Authorization passed; the server's argument values override those
    /// the client sent.
    PassReplace,
    /// Authorization was denied.
    Fail,
    /// A server-side error.
    Error,
    /// The server forwards the request to an alternative daemon, kept for
    /// compatibility though RFC 8907 deprecates it.
    Follow,
}

impl Status {
    /// The byte that stands for this status on the wire.
    pub open spec fn spec_wire_value(self) -> u8 {
        match self {
            Status::PassAdd => 0x01,
            Status::PassReplace => 0x02,
            Status::Fail => 0x10,
            Status::Error => 0x11,
            Status::Follow => 0x21,
        }
    }

    /// The status a byte denotes; any unlisted byte is an invalid status.
    pub open spec fn spec_parse(value: u8) -> Result<Status, DeserializeError> {
        if value == 0x01 {
            Ok(Status::PassAdd)
        } else if value == 0x02 {
            Ok(Status::PassReplace)
        } else if value == 0x10 {
            Ok(Status::Fail)
        } else if value == 0x11 {
            Ok(Status::Error)
        } else if value == 0x21 {
            Ok(Status::Follow)
        } else {
            Err(DeserializeError::InvalidStatus(value))
        }
    }

    /// Encodes this status as its wire byte.
    pub fn wire_value(self) -> (r: u8)
        ensures
            r == self.spec_wire_value(),
    {
        match self {
            Status::PassAdd => 0x01,
            Status::PassReplace => 0x02,
            Status::Fail => 0x10,
            Status::Error => 0x11,
            Status::Follow => 0x21,
        }
    }

    /// Reads a status byte, rejecting unknown numbers.
    pub fn from_wire(value: u8) -> (r: Result<Status, DeserializeError>)
        ensures
            r == Status::spec_parse(value),
    {
        if value == 0x01 {
            Ok(Status::PassAdd)
        } else if value == 0x02 {
            Ok(Status::PassReplace)
        } else if value == 0x10 {
            Ok(Status::Fail)
        } else if value == 0x11 {
            Ok(Status::Error)
        } else if value == 0x21 {
            Ok(Status::Follow)
        } else {
            Err(DeserializeError::InvalidStatus(value))
        }
    }
}

/// The sum of a sequence of length bytes.
pub open spec fn sum_lengths(lengths: Seq<u8>) -> int
    decreases lengths.len(),
{
    if lengths.len() == 0 {
        0
    } else {
        lengths[0] + sum_lengths(lengths.drop_first())
    }
}

/// The sum of length bytes is non-negative and at most 255 per byte.
pub proof fn lemma_sum_lengths_bounds(lengths: Seq<u8>)
    ensures
        0 <= sum_lengths(lengths) <= lengths.len() * 255,
    decreases lengths.len(),
{
    if lengths.len() > 0 {
        lemma_sum_lengths_bounds(lengths.drop_first());
    }
}

/// Appending one length byte adds it to the sum.
pub proof fn lemma_sum_lengths_push(lengths: Seq<u8>, x: u8)
    ensures
        sum_lengths(lengths.push(x)) == sum_lengths(lengths) + x,
    decreases lengths.len(),
{
    assert(sum_lengths(lengths.push(x)) == lengths.push(x)[0] + sum_lengths(
        lengths.push(x).drop_first(),
    ));
    if lengths.len() == 0 {
        assert(lengths.push(x)[0] == x);
        assert(lengths.push(x).drop_first() =~= Seq::<u8>::empty());
        assert(sum_lengths(Seq::<u8>::empty()) == 0);
    } else {
        assert(lengths.push(x)[0] == lengths[0]);
        assert(lengths.push(x).drop_first() =~= lengths.drop_first().push(x));
        lemma_sum_lengths_push(lengths.drop_first(), x);
        assert(sum_lengths(lengths) == lengths[0] + sum_lengths(lengths.drop_first()));
    }
}

/// What walking an argument section yields: each length byte carves the
/// next argument's encoding out of the value bytes, and each is decoded
/// in turn; the first bad argument's error is kept.
pub open spec fn spec_parse_argument_list(lengths: Seq<u8>, values: Seq<u8>) -> Result<
    Seq<ArgumentView>,
    InvalidArgument,
>
    decreases lengths.len(),
{
    if lengths.len() == 0 {
        Ok(Seq::empty())
    } else {
        match spec_parse_argument(values.take(lengths[0] as int)) {
            Err(e) => Err(e),
            Ok(v) => match spec_parse_argument_list(
                lengths.drop_first(),
                values.skip(lengths[0] as int),
            ) {
                Err(e) => Err(e),
                Ok(rest) => Ok(seq![v] + rest),
            },
        }
    }
}

/// Decodes an argument section: `lengths` carves `values` into encoded
/// arguments, which are decoded in order.
fn parse_argument_list(lengths: &Vec<u8>, values: &Vec<u8>) -> (r: Result<
    Vec<Argument>,
    InvalidArgument,
>)
    requires
        sum_lengths(lengths@) == values@.len(),
    ensures
        match r {
            Ok(v) => spec_parse_argument_list(lengths@, values@) == Ok::<
                Seq<ArgumentView>,
                InvalidArgument,
            >(v@.map_values(|a: Argument| a@)) && all_arguments_valid(
                v@.map_values(|a: Argument| a@),
            ),
            Err(e) => spec_parse_argument_list(lengths@, values@) == Err::<
                Seq<ArgumentView>,
                InvalidArgument,
            >(e),
        },
{
    proof {
        assert(lengths@.skip(0) =~= lengths@);
        assert(values@.skip(0) =~= values@);
    }
    parse_argument_list_from(lengths, 0, values, 0)
}

/// Decodes the argument section from length index `li` and value offset
/// `off` on.
fn parse_argument_list_from(lengths: &Vec<u8>, li: usize, values: &Vec<u8>, off: usize) -> (r:
    Result<Vec<Argument>, InvalidArgument>)
    requires
        li <= lengths@.len(),
        off <= values@.len(),
        sum_lengths(lengths@.skip(li as int)) == values@.len() - off,
    ensures
        match r {
            Ok(v) => spec_parse_argument_list(lengths@.skip(li as int), values@.skip(off as int))
                == Ok::<Seq<ArgumentView>, InvalidArgument>(v@.map_values(|a: Argument| a@))
                && all_arguments_valid(v@.map_values(|a: Argument| a@)),
            Err(e) => spec_parse_argument_list(lengths@.skip(li as int), values@.skip(off as int))
                == Err::<Seq<ArgumentView>, InvalidArgument>(e),
        },
    decreases lengths@.len() - li,
{
    let ghost rest_lengths = lengths@.skip(li as int);
    let ghost rest_values = values@.skip(off as int);
    if li == lengths.len() {
        proof {
            assert(rest_lengths =~= Seq::<u8>::empty());
        }
        let out: Vec<Argument> = Vec::new();
        proof {
            assert(out@.map_values(|a: Argument| a@) =~= Seq::<ArgumentView>::empty());
        }
        Ok(out)
    } else {
        let len = lengths[li] as usize;
        let vn: usize = values.len();
        proof {
            assert(rest_lengths[0] == lengths@[li as int]);
            assert(rest_lengths.drop_first() =~= lengths@.skip(li + 1));
            lemma_sum_lengths_bounds(rest_lengths.drop_first());
            assert(sum_lengths(rest_lengths) == rest_lengths[0] + sum_lengths(
                rest_lengths.drop_first(),
            ));
            assert(off + len <= vn);
        }
        let slice = crate::wire::subvec(values, off, off + len);
        proof {
            assert(slice@ =~= rest_values.take(len as int));
        }
        let first = match Argument::deserialize(&slice) {
            Ok(a) => a,
            Err(e) => {
                return Err(e);
            },
        };
        proof {
            assert(values@.skip(off + len) =~= rest_values.skip(len as int));
        }
        let mut rest = match parse_argument_list_from(lengths, li + 1, values, off + len) {
            Ok(v) => v,
            Err(e) => {
                return Err(e);
            },
        };
        let mut out: Vec<Argument> = Vec::new();
        out.push(first);
        let ghost rest_view = rest@;
        out.append(&mut rest);
        proof {
            assert(out@ =~= seq![first] + rest_view);
            assert(out@.map_values(|a: Argument| a@) =~= seq![first@] + rest_view.map_values(
                |a: Argument| a@,
            ));
        }
        Ok(out)
    }
}

/// The mathematical model of an authorization reply.
pub struct ReplyView {
    /// The status the server returned.
    pub status: Status,
    /// The message meant for the user, as characters.
    pub server_message: Seq<char>,
    /// The administrative log message, as characters.
    pub data: Seq<char>,
    /// The arguments the server sent, in order.
    pub arguments: Seq<ArgumentView>,
}

/// An authorization reply body received from a server.
#[derive(Debug, PartialEq, Eq, Hash)]
pub struct Reply {
    pub status: Status,
    pub server_message: FieldText,
    pub data: FieldText,
    pub arguments: Vec<Argument>,
}

impl View for Reply {
    type V = ReplyView;

    open spec fn view(&self) -> ReplyView {
        ReplyView {
            status: self.status,
            server_message: self.server_message@,
            data: self.data@,
            arguments: self.arguments@.map_values(|a: Argument| a@),
        }
    }
}

/// The length an authorization reply body claims for itself: the six
/// required bytes, one length byte per argument, the two stored lengths,
/// and the summed argument lengths. `Err` when the buffer cannot hold
/// the required fields or the argument length bytes.
pub open spec fn spec_reply_claimed_length(bytes: Seq<u8>) -> Result<int, DeserializeError> {
    if bytes.len() < 6 {
        Err(DeserializeError::UnexpectedEnd)
    } else if bytes.len() < 6 + bytes[1] {
        Err(DeserializeError::UnexpectedEnd)
    } else {
        Ok(
            6 + bytes[1] + u16_of_be(bytes[2], bytes[3]) + u16_of_be(bytes[4], bytes[5])
                + sum_lengths(bytes.subrange(6, 6 + bytes[1])),
        )
    }
}

/// The wire form of an authorization reply: status, argument count, the
/// two lengths, the argument length bytes, server message, data, then
/// the encoded arguments.
pub open spec fn spec_reply_wire_bytes(v: ReplyView) -> Seq<u8> {
    seq![v.status.spec_wire_value(), v.arguments.len() as u8] + be16(v.server_message.len() as u16)
        + be16(v.data.len() as u16) + Seq::new(
        v.arguments.len(),
        |i: int| argument_wire_bytes(v.arguments[i]).len() as u8,
    ) + chars_as_bytes(v.server_message) + chars_as_bytes(v.data) + encoded_values_bytes(
        v.arguments,
    )
}

impl Reply {
    /// What parsing a reply body buffer yields, checking in order: the
    /// required fields and argument length bytes are present, the buffer
    /// length equals the claimed length, the status byte is known, the
    /// server message and data are printable ASCII, and every argument
    /// decodes.
    pub open spec fn spec_parse_reply(bytes: Seq<u8>) -> Result<ReplyView, DeserializeError> {
        match spec_reply_claimed_length(bytes) {
            Err(e) => Err(e),
            Ok(total) => if total != bytes.len() {
                Err(
                    DeserializeError::WrongBodyBufferSize {
                        expected: total as usize,
                        buffer_size: bytes.len() as usize,
                    },
                )
            } else {
                match Status::spec_parse(bytes[0]) {
                    Err(e) => Err(e),
                    Ok(status) => {
                        let argc = bytes[1] as int;
                        let sml = u16_of_be(bytes[2], bytes[3]) as int;
                        let dl = u16_of_be(bytes[4], bytes[5]) as int;
                        let message_bytes = bytes.subrange(6 + argc, 6 + argc + sml);
                        let data_bytes = bytes.subrange(6 + argc + sml, 6 + argc + sml + dl);
                        if !bytes_are_printable_ascii(message_bytes) {
                            Err(DeserializeError::BadText)
                        } else if !bytes_are_printable_ascii(data_bytes) {
                            Err(DeserializeError::BadText)
                        } else {
                            match spec_parse_argument_list(
                                bytes.subrange(6, 6 + argc),
                                bytes.skip(6 + argc + sml + dl),
                            ) {
                                Err(e) => Err(DeserializeError::InvalidArgument(e)),
                                Ok(arguments) => Ok(
                                    ReplyView {
                                        status,
                                        server_message: chars_of_bytes(message_bytes),
                                        data: chars_of_bytes(data_bytes),
                                        arguments,
                                    },
                                ),
                            }
                        }
                    },
                }
            },
        }
    }

    /// Reads the total body length an authorization reply claims from its
    /// required fields and argument length bytes.
    pub fn extract_total_length(buffer: &Vec<u8>) -> (r: Result<u32, DeserializeError>)
        ensures
            match r {
                Ok(n) => spec_reply_claimed_length(buffer@) == Ok::<int, DeserializeError>(n as int),
                Err(e) => spec_reply_claimed_length(buffer@) == Err::<int, DeserializeError>(e),
            },
    {
        let n: usize = buffer.len();
        if n < 6 {
            return Err(DeserializeError::UnexpectedEnd);
        }
        let argc = buffer[1] as usize;
        if n < 6 + argc {
            return Err(DeserializeError::UnexpectedEnd);
        }
        let sml = crate::wire::read_u16_be(buffer, 2);
        let dl = crate::wire::read_u16_be(buffer, 4);
        let mut encoded: u32 = 0;
        let mut i: usize = 0;
        while i < argc
            invariant
                n == buffer@.len(),
                argc == buffer@[1],
                6 + argc <= n,
                i <= argc,
                encoded == sum_lengths(buffer@.subrange(6, 6 + i as int)),
                encoded <= i * 255,
            decreases argc - i,
        {
            proof {
                assert(buffer@.subrange(6, 6 + (i + 1)) =~= buffer@.subrange(6, 6 + i as int).push(
                    buffer@[6 + i],
                ));
                lemma_sum_lengths_push(buffer@.subrange(6, 6 + i as int), buffer@[6 + i]);
            }
            encoded = encoded + buffer[6 + i] as u32;
            i += 1;
        }
        Ok(6 + argc as u32 + sml as u32 + dl as u32 + encoded)
    }

    /// The status the server returned.
    pub fn status(&self) -> (r: Status)
        ensures
            r == self@.status,
    {
        self.status
    }

    /// The message meant for the user.
    pub fn server_message(&self) -> (r: &FieldText)
        ensures
            r@ == self@.server_message,
    {
        &self.server_message
    }

    /// The administrative log message.
    pub fn data(&self) -> (r: &FieldText)
        ensures
            r@ == self@.data,
    {
        &self.data
    }

    /// The arguments the server sent, in the order they stood on the wire.
    pub fn iter_arguments(&self) -> (r: &Vec<Argument>)
        ensures
            r@.map_values(|a: Argument| a@) == self@.arguments,
    {
        &self.arguments
    }
}

impl crate::packet::Sealed for Reply {

}

impl PacketBody for Reply {
    open spec fn spec_packet_type() -> PacketType {
        PacketType::Authorization
    }

    fn packet_type() -> PacketType {
        PacketType::Authorization
    }

    open spec fn spec_required_minor_version(&self) -> Option<MinorVersion> {
        None
    }

    fn required_minor_version(&self) -> Option<MinorVersion> {
        None
    }
}

impl DeserializeBody for Reply {
    open spec fn spec_parse(bytes: Seq<u8>) -> Result<ReplyView, DeserializeError> {
        Reply::spec_parse_reply(bytes)
    }

    fn deserialize_from_buffer(buffer: &Vec<u8>) -> (r: Result<Self, DeserializeError>) {
        let n: usize = buffer.len();
        let total = match Self::extract_total_length(buffer) {
            Ok(t) => t,
            Err(e) => {
                return Err(e);
            },
        };
        if total as usize != n {
            return Err(
                DeserializeError::WrongBodyBufferSize { expected: total as usize, buffer_size: n },
            );
        }
        let status = match Status::from_wire(buffer[0]) {
            Ok(s) => s,
            Err(e) => {
                return Err(e);
            },
        };
        let argc = buffer[1] as usize;
        let sml = crate::wire::read_u16_be(buffer, 2) as usize;
        let dl = crate::wire::read_u16_be(buffer, 4) as usize;
        proof {
            lemma_sum_lengths_bounds(buffer@.subrange(6, 6 + argc as int));
        }
        let message_bytes = crate::wire::subvec(buffer, 6 + argc, 6 + argc + sml);
        let server_message = match FieldText::from_bytes(message_bytes) {
            Ok(t) => t,
            Err(_) => {
                return Err(DeserializeError::BadText);
            },
        };
        let data_bytes = crate::wire::subvec(buffer, 6 + argc + sml, 6 + argc + sml + dl);
        let data = match FieldText::from_bytes(data_bytes) {
            Ok(t) => t,
            Err(_) => {
                return Err(DeserializeError::BadText);
            },
        };
        let length_bytes = crate::wire::subvec(buffer, 6, 6 + argc);
        let value_bytes = crate::wire::subvec(buffer, 6 + argc + sml + dl, n);
        proof {
            assert(value_bytes@ =~= buffer@.skip(6 + argc + sml + dl));
        }
        let arguments = match parse_argument_list(&length_bytes, &value_bytes) {
            Ok(v) => v,
            Err(e) => {
                return Err(DeserializeError::InvalidArgument(e));
            },
        };
        Ok(Reply { status, server_message, data, arguments })
    }
}


/// Whatever argument section decodes successfully holds only valid
/// arguments.
pub proof fn lemma_parse_argument_list_valid(lengths: Seq<u8>, values: Seq<u8>)
    ensures
        spec_parse_argument_list(lengths, values) matches Ok(s) ==> all_arguments_valid(s)
            && s.len() == lengths.len(),
    decreases lengths.len(),
{
    if lengths.len() > 0 && spec_parse_argument_list(lengths, values) is Ok {
        crate::arguments::lemma_parse_argument_valid(values.take(lengths[0] as int));
        lemma_parse_argument_list_valid(lengths.drop_first(), values.skip(lengths[0] as int));
        let s = spec_parse_argument_list(lengths, values)->Ok_0;
        let first = spec_parse_argument(values.take(lengths[0] as int))->Ok_0;
        let rest = spec_parse_argument_list(lengths.drop_first(), values.skip(lengths[0] as int))->Ok_0;
        assert(s == seq![first] + rest);
        assert forall|i: int| 0 <= i < s.len() implies argument_view_valid(#[trigger] s[i]) by {
            if i == 0 {
                assert(s[0] == first);
            } else {
                assert(s[i] == rest[i - 1]);
            }
        }
    }
}

/// Whatever reply body decodes successfully has printable texts within
/// the two-byte length bound, and at most 255 valid arguments: enough to
/// convert it to its owned form or hand it to the response mapping.
pub proof fn lemma_parse_reply_fields_valid(bytes: Seq<u8>)
    ensures
        Reply::spec_parse_reply(bytes) matches Ok(v) ==> {
            &&& text_is_printable(v.server_message)
            &&& text_is_printable(v.data)
            &&& v.server_message.len() <= 0xffff
            &&& v.data.len() <= 0xffff
            &&& v.arguments.len() <= 255
            &&& all_arguments_valid(v.arguments)
        },
{
    if Reply::spec_parse_reply(bytes) is Ok {
        let v = Reply::spec_parse_reply(bytes)->Ok_0;
        let argc = bytes[1] as int;
        let sml = u16_of_be(bytes[2], bytes[3]) as int;
        let dl = u16_of_be(bytes[4], bytes[5]) as int;
        lemma_sum_lengths_bounds(bytes.subrange(6, 6 + argc));
        let message_bytes = bytes.subrange(6 + argc, 6 + argc + sml);
        let data_bytes = bytes.subrange(6 + argc + sml, 6 + argc + sml + dl);
        assert(v.server_message == chars_of_bytes(message_bytes));
        assert(v.data == chars_of_bytes(data_bytes));
        crate::text::lemma_chars_of_bytes_round_trip(message_bytes);
        crate::text::lemma_chars_of_bytes_round_trip(data_bytes);
        assert(v.server_message.len() == sml && v.data.len() == dl);
        assert(v.arguments == spec_parse_argument_list(
            bytes.subrange(6, 6 + argc),
            bytes.skip(6 + argc + sml + dl),
        )->Ok_0);
        lemma_parse_argument_list_valid(
            bytes.subrange(6, 6 + argc),
            bytes.skip(6 + argc + sml + dl),
        );
        assert(v.arguments.len() == argc);
    }
}

/// Parsing the wire form of any argument list whose arguments are valid
/// yields the list back.
pub proof fn lemma_argument_list_round_trip(s: Seq<ArgumentView>)
    requires
        all_arguments_valid(s),
    ensures
        spec_parse_argument_list(
            Seq::new(s.len(), |i: int| argument_wire_bytes(s[i]).len() as u8),
            encoded_values_bytes(s),
        ) == Ok::<Seq<ArgumentView>, InvalidArgument>(s),
    decreases s.len(),
{
    let lengths = Seq::new(s.len(), |i: int| argument_wire_bytes(s[i]).len() as u8);
    let values = encoded_values_bytes(s);
    if s.len() > 0 {
        assert(argument_view_valid(s[0]));
        let first_bytes = argument_wire_bytes(s[0]);
        assert(first_bytes.len() <= 255);
        assert(lengths[0] == first_bytes.len() as u8);
        assert(values == first_bytes + encoded_values_bytes(s.drop_first()));
        assert(values.take(lengths[0] as int) =~= first_bytes);
        lemma_argument_round_trip(s[0]);
        assert(all_arguments_valid(s.drop_first())) by {
            assert forall|i: int| 0 <= i < s.drop_first().len() implies argument_view_valid(
                #[trigger] s.drop_first()[i],
            ) by {
                assert(s.drop_first()[i] == s[i + 1]);
            }
        }
        lemma_argument_list_round_trip(s.drop_first());
        assert(lengths.drop_first() =~= Seq::new(
            s.drop_first().len(),
            |i: int| argument_wire_bytes(s.drop_first()[i]).len() as u8,
        ));
        assert(values.skip(lengths[0] as int) =~= encoded_values_bytes(s.drop_first()));
        assert(spec_parse_argument(values.take(lengths[0] as int)) == Ok::<
            ArgumentView,
            InvalidArgument,
        >(s[0]));
        assert(spec_parse_argument_list(lengths.drop_first(), values.skip(lengths[0] as int))
            == Ok::<Seq<ArgumentView>, InvalidArgument>(s.drop_first()));
        assert(spec_parse_argument_list(lengths, values) == Ok::<
            Seq<ArgumentView>,
            InvalidArgument,
        >(seq![s[0]] + s.drop_first()));
        assert(seq![s[0]] + s.drop_first() =~= s);
    } else {
        assert(s =~= Seq::<ArgumentView>::empty());
        assert(lengths.len() == 0);
    }
}

/// The sum of the per-argument length bytes is the length of the
/// concatenated encodings.
pub proof fn lemma_sum_of_argument_lengths(s: Seq<ArgumentView>)
    requires
        all_arguments_valid(s),
    ensures
        sum_lengths(Seq::new(s.len(), |i: int| argument_wire_bytes(s[i]).len() as u8))
            == encoded_values_bytes(s).len(),
    decreases s.len(),
{
    let lengths = Seq::new(s.len(), |i: int| argument_wire_bytes(s[i]).len() as u8);
    if s.len() > 0 {
        assert(argument_view_valid(s[0]));
        assert(all_arguments_valid(s.drop_first())) by {
            assert forall|i: int| 0 <= i < s.drop_first().len() implies argument_view_valid(
                #[trigger] s.drop_first()[i],
            ) by {
                assert(s.drop_first()[i] == s[i + 1]);
            }
        }
        lemma_sum_of_argument_lengths(s.drop_first());
        assert(lengths.drop_first() =~= Seq::new(
            s.drop_first().len(),
            |i: int| argument_wire_bytes(s.drop_first()[i]).len() as u8,
        ));
        assert(argument_wire_bytes(s[0]).len() <= 255);
    }
}

/// Parsing the wire form of any reply with valid arguments, printable
/// texts and in-range lengths yields the reply back.
pub proof fn lemma_reply_round_trip(v: ReplyView)
    requires
        text_is_printable(v.server_message),
        text_is_printable(v.data),
        v.server_message.len() <= 0xffff,
        v.data.len() <= 0xffff,
        v.arguments.len() <= 255,
        all_arguments_valid(v.arguments),
    ensures
        Reply::spec_parse_reply(spec_reply_wire_bytes(v)) == Ok::<ReplyView, DeserializeError>(v),
{
    let bytes = spec_reply_wire_bytes(v);
    let argc = v.arguments.len() as int;
    let sml = v.server_message.len() as int;
    let dl = v.data.len() as int;
    let lengths = Seq::new(v.arguments.len(), |i: int| argument_wire_bytes(v.arguments[i]).len() as u8);
    crate::wire::lemma_be16_round_trip(v.server_message.len() as u16);
    crate::wire::lemma_be16_round_trip(v.data.len() as u16);
    assert(bytes[0] == v.status.spec_wire_value());
    assert(bytes[1] == v.arguments.len() as u8);
    assert(bytes[2] == be16(v.server_message.len() as u16)[0]);
    assert(bytes[3] == be16(v.server_message.len() as u16)[1]);
    assert(bytes[4] == be16(v.data.len() as u16)[0]);
    assert(bytes[5] == be16(v.data.len() as u16)[1]);
    assert(u16_of_be(bytes[2], bytes[3]) == sml);
    assert(u16_of_be(bytes[4], bytes[5]) == dl);
    assert(bytes.subrange(6, 6 + argc) =~= lengths);
    lemma_sum_of_argument_lengths(v.arguments);
    assert(bytes.len() == 6 + argc + sml + dl + encoded_values_bytes(v.arguments).len());
    crate::text::lemma_chars_as_bytes_round_trip(v.server_message);
    crate::text::lemma_chars_as_bytes_round_trip(v.data);
    assert(bytes.subrange(6 + argc, 6 + argc + sml) =~= chars_as_bytes(v.server_message));
    assert(bytes.subrange(6 + argc + sml, 6 + argc + sml + dl) =~= chars_as_bytes(v.data));
    assert(bytes.skip(6 + argc + sml + dl) =~= encoded_values_bytes(v.arguments));
    lemma_argument_list_round_trip(v.arguments);
    assert(Status::spec_parse(v.status.spec_wire_value()) == Ok::<Status, DeserializeError>(
        v.status,
    ));
}


impl SerializeBody for Reply {
    /// A reply can be put back on the wire when its texts are printable
    /// and fit their length bytes, and its arguments are a valid bounded
    /// set.
    open spec fn valid(&self) -> bool {
        &&& text_is_printable(self@.server_message)
        &&& text_is_printable(self@.data)
        &&& self@.server_message.len() <= 0xffff
        &&& self@.data.len() <= 0xffff
        &&& self@.arguments.len() <= 255
        &&& all_arguments_valid(self@.arguments)
    }

    open spec fn spec_wire_bytes(&self) -> Seq<u8> {
        spec_reply_wire_bytes(self@)
    }

    fn wire_size(&self) -> (r: usize) {
        let n: usize = self.arguments.len();
        let mut encoded: usize = 0;
        let mut i: usize = 0;
        while i < n
            invariant
                self.valid(),
                n == self@.arguments.len(),
                i <= n,
                encoded == encoded_values_bytes(self@.arguments.take(i as int)).len(),
                encoded <= i * 255,
            decreases n - i,
        {
            proof {
                assert(argument_view_valid(self@.arguments[i as int]));
                assert(self@.arguments.take(i + 1) =~= self@.arguments.take(i as int).push(
                    self@.arguments[i as int],
                ));
                lemma_encoded_values_push(self@.arguments.take(i as int), self@.arguments[i as int]);
                assert(self.arguments@[i as int]@ == self@.arguments[i as int]);
            }
            let len = self.arguments[i].encoded_length();
            encoded = encoded + len as usize;
            i += 1;
        }
        proof {
            assert(self@.arguments.take(n as int) =~= self@.arguments);
            assert(spec_reply_wire_bytes(self@).len() == 6 + n + self@.server_message.len()
                + self@.data.len() + encoded_values_bytes(self@.arguments).len());
        }
        6 + n + self.server_message.len() + self.data.len() + encoded
    }

    fn append_wire_bytes(&self, out: &mut Vec<u8>) {
        let n: usize = self.arguments.len();
        out.push(self.status.wire_value());
        out.push(n as u8);
        crate::wire::push_u16_be(out, self.server_message.len() as u16);
        crate::wire::push_u16_be(out, self.data.len() as u16);
        let ghost head = old(out)@ + seq![
            self@.status.spec_wire_value(),
            self@.arguments.len() as u8,
        ] + crate::wire::be16(self@.server_message.len() as u16) + crate::wire::be16(
            self@.data.len() as u16,
        );
        proof {
            assert(out@ =~= head);
        }
        let mut i: usize = 0;
        while i < n
            invariant
                self.valid(),
                n == self@.arguments.len(),
                i <= n,
                out@ == head + Seq::new(
                    i as nat,
                    |j: int| argument_wire_bytes(self@.arguments[j]).len() as u8,
                ),
            decreases n - i,
        {
            proof {
                assert(argument_view_valid(self@.arguments[i as int]));
                assert(self.arguments@[i as int]@ == self@.arguments[i as int]);
            }
            let len = self.arguments[i].encoded_length();
            out.push(len);
            i += 1;
            assert(out@ =~= head + Seq::new(
                i as nat,
                |j: int| argument_wire_bytes(self@.arguments[j]).len() as u8,
            ));
        }
        crate::wire::push_bytes(out, self.server_message.as_bytes());
        crate::wire::push_bytes(out, self.data.as_bytes());
        let ghost mid = out@;
        let mut k: usize = 0;
        while k < n
            invariant
                self.valid(),
                n == self@.arguments.len(),
                k <= n,
                out@ == mid + encoded_values_bytes(self@.arguments.take(k as int)),
            decreases n - k,
        {
            proof {
                assert(self@.arguments.take(k + 1) =~= self@.arguments.take(k as int).push(
                    self@.arguments[k as int],
                ));
                lemma_encoded_values_push(self@.arguments.take(k as int), self@.arguments[k as int]);
                assert(self.arguments@[k as int]@ == self@.arguments[k as int]);
            }
            self.arguments[k].serialize_append(out);
            k += 1;
        }
        proof {
            assert(self@.arguments.take(n as int) =~= self@.arguments);
            assert(out@ =~= old(out)@ + spec_reply_wire_bytes(self@));
        }
    }
}

/// Round trip at the packet level: an authorization reply packet
/// serialized in cleartext, or obfuscated under any secret, deserializes
/// back to the same header (with the unencrypted flag as serialization
/// leaves it) and the same reply.
pub proof fn lemma_packet_round_trip(p: crate::packet::Packet<Reply>, key: Seq<u8>)
    requires
        p.body.valid(),
        p.header.flags.valid(),
    ensures
        crate::packet::spec_parse_packet_cleartext::<Reply>(p.spec_serialized_cleartext())
            == Ok::<(crate::packet::HeaderInfo, ReplyView), crate::DeserializeError>(
            (
                crate::packet::HeaderInfo {
                    flags: crate::packet::PacketFlags { bits: p.header.flags.bits | 0x01 },
                    ..p.header
                },
                p.body@,
            ),
        ),
        crate::packet::spec_parse_packet_obfuscated::<Reply>(
            key,
            p.spec_serialized_obfuscated(key),
        ) == Ok::<(crate::packet::HeaderInfo, ReplyView), crate::DeserializeError>(
            (
                crate::packet::HeaderInfo {
                    flags: crate::packet::PacketFlags { bits: p.header.flags.bits & 0xfe },
                    ..p.header
                },
                p.body@,
            ),
        ),
{
    lemma_reply_round_trip(p.body@);
    crate::arguments::lemma_encoded_values_len(p.body@.arguments);
    crate::packet::lemma_packet_round_trip_cleartext::<Reply>(p, p.body@);
    crate::packet::lemma_packet_round_trip_obfuscated::<Reply>(p, p.body@, key);
}

/// An authorization reply whose fields are ordinary owned values.
#[derive(Debug, Clone, PartialEq, Eq, Hash)]
pub struct ReplyOwned {
    /// The status the server returned.
    pub status: Status,
    /// The message to present to the user.
    pub server_message: String,
    /// The administrative log message.
    pub data: String,
    /// The arguments the server sent.
    pub arguments: Vec<ArgumentOwned>,
}

impl Reply {
    /// Converts the reply into one that holds ordinary owned values.
    pub fn to_owned(&self) -> (r: ReplyOwned)
        requires
            text_is_printable(self@.server_message),
            text_is_printable(self@.data),
            all_arguments_valid(self@.arguments),
        ensures
            r.status == self@.status,
            r.server_message@ == self@.server_message,
            r.data@ == self@.data,
            r.arguments@.len() == self@.arguments.len(),
            forall|j: int|
                0 <= j < self@.arguments.len() ==> (#[trigger] r.arguments@[j]).name@
                    == self@.arguments[j].name && r.arguments@[j].value@ == self@.arguments[j].value
                    && r.arguments@[j].required == self@.arguments[j].mandatory,
    {
        let n: usize = self.arguments.len();
        let mut arguments: Vec<ArgumentOwned> = Vec::new();
        let mut i: usize = 0;
        while i < n
            invariant
                n == self.arguments@.len(),
                i <= n,
                all_arguments_valid(self@.arguments),
                arguments@.len() == i,
                forall|j: int|
                    0 <= j < i ==> (#[trigger] arguments@[j]).name@ == self@.arguments[j].name
                        && arguments@[j].value@ == self@.arguments[j].value
                        && arguments@[j].required == self@.arguments[j].mandatory,
            decreases n - i,
        {
            proof {
                assert(self.arguments@[i as int]@ == self@.arguments[i as int]);
                assert(argument_view_valid(self@.arguments[i as int]));
            }
            arguments.push(self.arguments[i].to_owned());
            i += 1;
        }
        ReplyOwned {
            status: self.status,
            server_message: self.server_message.to_string_value(),
            data: self.data.to_string_value(),
            arguments,
        }
    }
}

} // verus!
