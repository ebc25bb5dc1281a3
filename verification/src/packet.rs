//! The packet layer: header flags, packet types, the fixed 12-byte header
//! codec, and assembly of a header and body into a full wire packet, with
//! optional MD5 pseudo-pad obfuscation of the body.

use vstd::prelude::*;
use crate::wire::{be32, u32_of_be, lemma_be32_round_trip};
use crate::{DeserializeError, SerializeError, Version};

verus! {

/// Flags of the packet header. Bit 0 marks an unobfuscated body, bit 2
/// asks for single-connection mode; all other bits are reserved and must
/// be clear.
#[derive(Debug, PartialEq, Eq, Structural, Clone, Copy, Hash)]
pub struct PacketFlags {
    pub bits: u8,
}

impl PacketFlags {
    /// The bit that marks the body as unobfuscated.
    pub open spec fn spec_unencrypted_bit() -> u8 {
        0x01
    }

    /// The bit that asks for single-connection mode.
    pub open spec fn spec_single_connection_bit() -> u8 {
        0x04
    }

    /// Whether only the two known flag bits are set.
    pub open spec fn valid(self) -> bool {
        self.bits & 0xfa == 0
    }

    /// The raw flag byte.
    pub open spec fn spec_bits(self) -> u8 {
        self.bits
    }

    /// Whether the unencrypted flag is set.
    pub open spec fn spec_unencrypted(self) -> bool {
        self.bits & 0x01 == 0x01
    }

    /// Whether the single-connection flag is set.
    pub open spec fn spec_single_connection(self) -> bool {
        self.bits & 0x04 == 0x04
    }

    /// No flags set.
    pub fn none() -> (r: PacketFlags)
        ensures
            r.bits == 0,
            r.valid(),
    {
        proof {
            assert(0u8 & 0xfa == 0) by (bit_vector);
        }
        PacketFlags { bits: 0 }
    }

    /// Only the unencrypted flag set.
    pub fn unencrypted() -> (r: PacketFlags)
        ensures
            r.bits == 0x01,
            r.valid(),
            r.spec_unencrypted(),
            !r.spec_single_connection(),
    {
        proof {
            assert(0x01u8 & 0xfa == 0 && 0x01u8 & 0x01 == 0x01 && 0x01u8 & 0x04 == 0)
                by (bit_vector);
        }
        PacketFlags { bits: 0x01 }
    }

    /// Only the single-connection flag set.
    pub fn single_connection() -> (r: PacketFlags)
        ensures
            r.bits == 0x04,
            r.valid(),
            !r.spec_unencrypted(),
            r.spec_single_connection(),
    {
        proof {
            assert(0x04u8 & 0xfa == 0 && 0x04u8 & 0x01 == 0 && 0x04u8 & 0x04 == 0x04)
                by (bit_vector);
        }
        PacketFlags { bits: 0x04 }
    }

    /// Reads a flag byte, rejecting any reserved bit.
    pub fn from_bits(bits: u8) -> (r: Option<PacketFlags>)
        ensures
            match r {
                Some(f) => f.bits == bits && f.valid(),
                None => bits & 0xfa != 0,
            },
    {
        if bits & 0xfa == 0 {
            Some(PacketFlags { bits })
        } else {
            None
        }
    }

    /// The raw flag byte.
    pub fn bits(self) -> (r: u8)
        ensures
            r == self.spec_bits(),
    {
        self.bits
    }

    /// Whether the unencrypted flag is set.
    pub fn unencrypted_set(self) -> (r: bool)
        ensures
            r == self.spec_unencrypted(),
    {
        self.bits & 0x01 == 0x01
    }

    /// Whether the single-connection flag is set.
    pub fn single_connection_set(self) -> (r: bool)
        ensures
            r == self.spec_single_connection(),
    {
        self.bits & 0x04 == 0x04
    }


    /// The names of the set flags, space separated with no trailing
    /// space; `no flags set` when none is.
    pub open spec fn spec_flag_names(self) -> Seq<char> {
        if self.spec_unencrypted() && self.spec_single_connection() {
            "UNENCRYPTED"@ + " "@ + "SINGLE_CONNECTION"@
        } else if self.spec_unencrypted() {
            "UNENCRYPTED"@
        } else if self.spec_single_connection() {
            "SINGLE_CONNECTION"@
        } else {
            "no flags set"@
        }
    }

    /// Writes out the names of the set flags, space separated with no
    /// trailing space.
    pub fn flag_names(self) -> (r: String)
        ensures
            r@ == self.spec_flag_names(),
    {
        if self.unencrypted_set() && self.single_connection_set() {
            let mut s = String::from_str("UNENCRYPTED");
            s.append(" ");
            s.append("SINGLE_CONNECTION");
            s
        } else if self.unencrypted_set() {
            String::from_str("UNENCRYPTED")
        } else if self.single_connection_set() {
            String::from_str("SINGLE_CONNECTION")
        } else {
            String::from_str("no flags set")
        }
    }
}

impl PacketFlags {
    /// The same flags with the unencrypted flag set.
    pub fn with_unencrypted(self) -> (r: PacketFlags)
        ensures
            r.bits == self.bits | 0x01,
            r.spec_unencrypted(),
            r.spec_single_connection() == self.spec_single_connection(),
            self.valid() ==> r.valid(),
    {
        let bits = self.bits;
        proof {
            assert((bits | 0x01) & 0x01 == 0x01 && (bits | 0x01) & 0x04 == bits & 0x04 && (bits
                & 0xfa == 0 ==> (bits | 0x01) & 0xfa == 0)) by (bit_vector);
        }
        PacketFlags { bits: self.bits | 0x01 }
    }

    /// The same flags with the unencrypted flag cleared.
    pub fn without_unencrypted(self) -> (r: PacketFlags)
        ensures
            r.bits == self.bits & 0xfe,
            !r.spec_unencrypted(),
            r.spec_single_connection() == self.spec_single_connection(),
            self.valid() ==> r.valid(),
    {
        let bits = self.bits;
        proof {
            assert((bits & 0xfe) & 0x01 == 0 && (bits & 0xfe) & 0x04 == bits & 0x04 && (bits & 0xfa
                == 0 ==> (bits & 0xfe) & 0xfa == 0)) by (bit_vector);
        }
        PacketFlags { bits: self.bits & 0xfe }
    }
}

/// The type of a protocol packet.
#[derive(Debug, PartialEq, Eq, Structural, Clone, Copy, Hash)]
pub enum PacketType {
    /// An authentication packet.
    Authentication,
    /// An authorization packet.
    Authorization,
    /// An accounting packet.
    Accounting,
}

impl PacketType {
    /// The byte that stands for this packet type on the wire.
    pub open spec fn spec_wire_value(self) -> u8 {
        match self {
            PacketType::Authentication => 0x1,
            PacketType::Authorization => 0x2,
            PacketType::Accounting => 0x3,
        }
    }

    /// The packet type a byte denotes; bytes other than 1, 2 and 3 are
    /// invalid.
    pub open spec fn spec_parse(value: u8) -> Result<PacketType, DeserializeError> {
        if value == 0x1 {
            Ok(PacketType::Authentication)
        } else if value == 0x2 {
            Ok(PacketType::Authorization)
        } else if value == 0x3 {
            Ok(PacketType::Accounting)
        } else {
            Err(DeserializeError::InvalidPacketType(value))
        }
    }

    /// Encodes this packet type as its wire byte.
    pub fn wire_value(self) -> (r: u8)
        ensures
            r == self.spec_wire_value(),
    {
        match self {
            PacketType::Authentication => 0x1,
            PacketType::Authorization => 0x2,
            PacketType::Accounting => 0x3,
        }
    }

    /// Reads a packet type byte, rejecting unknown numbers.
    pub fn from_wire(value: u8) -> (r: Result<PacketType, DeserializeError>)
        ensures
            r == PacketType::spec_parse(value),
    {
        if value == 0x1 {
            Ok(PacketType::Authentication)
        } else if value == 0x2 {
            Ok(PacketType::Authorization)
        } else if value == 0x3 {
            Ok(PacketType::Accounting)
        } else {
            Err(DeserializeError::InvalidPacketType(value))
        }
    }
}

/// The information a caller supplies for a packet header: version, sequence
/// number, flags, and session id. The packet type and body length are
/// filled in from the body at serialization time.
#[derive(PartialEq, Eq, Structural, Debug, Clone, Copy, Hash)]
pub struct HeaderInfo {
    pub version: Version,
    pub sequence_number: u8,
    pub flags: PacketFlags,
    pub session_id: u32,
}

/// The number of bytes of a packet header on the wire.
pub open spec fn spec_header_size() -> int {
    12
}

impl HeaderInfo {
    /// The 12 bytes of the header on the wire: version, type, sequence
    /// number, flags, then session id and body length in big endian.
    pub open spec fn spec_wire_bytes(self, packet_type: PacketType, body_length: u32) -> Seq<u8> {
        seq![
            self.version.spec_wire_value(),
            packet_type.spec_wire_value(),
            self.sequence_number,
            self.flags.spec_bits(),
        ] + be32(self.session_id) + be32(body_length)
    }

    /// Bundles the caller-supplied header fields.
    pub fn new(version: Version, sequence_number: u8, flags: PacketFlags, session_id: u32) -> (r:
        Self)
        ensures
            r.version == version,
            r.sequence_number == sequence_number,
            r.flags == flags,
            r.session_id == session_id,
    {
        Self { version, sequence_number, flags, session_id }
    }

    /// The protocol version.
    pub fn version(&self) -> (r: Version)
        ensures
            r == self.version,
    {
        self.version
    }

    /// The sequence number: odd for client packets, even for server packets.
    pub fn sequence_number(&self) -> (r: u8)
        ensures
            r == self.sequence_number,
    {
        self.sequence_number
    }

    /// The header flags.
    pub fn flags(&self) -> (r: PacketFlags)
        ensures
            r == self.flags,
    {
        self.flags
    }

    /// The session id.
    pub fn session_id(&self) -> (r: u32)
        ensures
            r == self.session_id,
    {
        self.session_id
    }

    /// Appends the 12 header bytes, completed with the given packet type
    /// and body length, to `out`.
    pub fn serialize(&self, out: &mut Vec<u8>, packet_type: PacketType, body_length: u32)
        ensures
            final(out)@ == old(out)@ + self.spec_wire_bytes(packet_type, body_length),
            final(out)@.len() == old(out)@.len() + spec_header_size(),
    {
        out.push(self.version.wire_value());
        out.push(packet_type.wire_value());
        out.push(self.sequence_number);
        out.push(self.flags.bits());
        crate::wire::push_u32_be(out, self.session_id);
        crate::wire::push_u32_be(out, body_length);
        assert(out@ =~= old(out)@ + self.spec_wire_bytes(packet_type, body_length));
    }

    /// What parsing the first 12 bytes of a packet yields: the header
    /// fields, rejecting an unknown version byte and reserved flag bits.
    /// The packet type and body length bytes are read by the packet layer.
    pub open spec fn spec_parse(bytes: Seq<u8>) -> Result<HeaderInfo, DeserializeError>
        recommends
            bytes.len() >= 12,
    {
        match Version::spec_parse(bytes[0]) {
            Err(e) => Err(e),
            Ok(version) => if bytes[3] & 0xfa != 0 {
                Err(DeserializeError::InvalidHeaderFlags(bytes[3]))
            } else {
                Ok(
                    HeaderInfo {
                        version,
                        sequence_number: bytes[2],
                        flags: PacketFlags { bits: bytes[3] },
                        session_id: u32_of_be(bytes[4], bytes[5], bytes[6], bytes[7]),
                    },
                )
            },
        }
    }

    /// Reads the header fields out of the first 12 bytes of a packet,
    /// rejecting an unknown version and reserved flag bits.
    pub fn deserialize(buffer: &Vec<u8>) -> (r: Result<HeaderInfo, DeserializeError>)
        requires
            buffer@.len() >= 12,
        ensures
            r == HeaderInfo::spec_parse(buffer@),
            r matches Ok(h) ==> h.flags.valid(),
    {
        let version = match Version::from_wire(buffer[0]) {
            Ok(v) => v,
            Err(e) => {
                return Err(e);
            },
        };
        let flags = match PacketFlags::from_bits(buffer[3]) {
            Some(f) => f,
            None => {
                return Err(DeserializeError::InvalidHeaderFlags(buffer[3]));
            },
        };
        let session_id = crate::wire::read_u32_be(buffer, 4);
        Ok(HeaderInfo { version, sequence_number: buffer[2], flags, session_id })
    }
}

/// The seal of the packet-body abstraction: only this crate's body types
/// implement it, so no outside type can pose as a packet body.
pub trait Sealed {

}

/// A type that can be the body of a TACACS+ packet. The seven body
/// types of the three families are the only implementors.
pub trait PacketBody: Sized + Sealed {
    /// The packet type this body travels under.
    spec fn spec_packet_type() -> PacketType;

    /// The packet type this body travels under.
    fn packet_type() -> (r: PacketType)
        ensures
            r == Self::spec_packet_type(),
    ;

    /// The protocol minor version the body demands, if any.
    spec fn spec_required_minor_version(&self) -> Option<crate::MinorVersion>;

    /// The protocol minor version the body demands, if any.
    fn required_minor_version(&self) -> (r: Option<crate::MinorVersion>)
        ensures
            r == self.spec_required_minor_version(),
    ;
}

/// A body the client can put on the wire.
pub trait SerializeBody: PacketBody {
    /// The well-formedness its constructors establish.
    spec fn valid(&self) -> bool;

    /// The exact bytes of the body on the wire.
    spec fn spec_wire_bytes(&self) -> Seq<u8>;

    /// The size of the body on the wire, which always fits the header's
    /// 32-bit length field.
    fn wire_size(&self) -> (r: usize)
        requires
            self.valid(),
        ensures
            r == self.spec_wire_bytes().len(),
            r <= 0x00ff_ffff,
    ;

    /// Appends the wire bytes of the body to `out`.
    fn append_wire_bytes(&self, out: &mut Vec<u8>)
        requires
            self.valid(),
        ensures
            final(out)@ == old(out)@ + self.spec_wire_bytes(),
    ;
}

/// A body the client can read off the wire.
pub trait DeserializeBody: PacketBody + View {
    /// What parsing a body buffer yields: the body's model, or the exact
    /// error.
    spec fn spec_parse(bytes: Seq<u8>) -> Result<Self::V, DeserializeError>;

    /// Parses a body out of exactly its buffer.
    fn deserialize_from_buffer(buffer: &Vec<u8>) -> (r: Result<Self, DeserializeError>)
        ensures
            match r {
                Ok(b) => Self::spec_parse(buffer@) == Ok::<Self::V, DeserializeError>(b@),
                Err(e) => Self::spec_parse(buffer@) == Err::<Self::V, DeserializeError>(e),
            },
    ;
}

/// A full packet: a header and a body of one of the seven body types.
#[derive(Debug, PartialEq, Eq)]
pub struct Packet<B> {
    pub header: HeaderInfo,
    pub body: B,
}

impl<B: PacketBody> Sealed for Packet<B> {

}

/// The minor version a header takes when a body demands one: the body's
/// required minor version, or the header's own when the body demands none.
pub open spec fn coupled_version(header_version: Version, required: Option<
    crate::MinorVersion,
>) -> Version {
    match required {
        Some(minor) => Version { major: header_version.major, minor },
        None => header_version,
    }
}

impl<B: PacketBody> Packet<B> {
    /// Assembles a header and body. The header's minor version is brought
    /// in line with what the body demands, so that after assembly the two
    /// always agree.
    pub fn new(header: HeaderInfo, body: B) -> (r: Self)
        ensures
            r.body == body,
            r.header.sequence_number == header.sequence_number,
            r.header.flags == header.flags,
            r.header.session_id == header.session_id,
            r.header.version == coupled_version(
                header.version,
                body.spec_required_minor_version(),
            ),
            body.spec_required_minor_version() matches Some(m) ==> r.header.version.minor == m,
    {
        let mut header = header;
        if let Some(minor) = body.required_minor_version() {
            header.version = Version::new(header.version.major(), minor);
        }
        Self { header, body }
    }

    /// The header of the packet.
    pub fn header(&self) -> (r: &HeaderInfo)
        ensures
            r == self.header,
    {
        &self.header
    }

    /// The body of the packet.
    pub fn body(&self) -> (r: &B)
        ensures
            r == self.body,
    {
        &self.body
    }
}

impl<B: PacketBody + SerializeBody> Packet<B> {
    /// The size of the whole packet on the wire: the 12 header bytes plus
    /// the body.
    pub fn wire_size(&self) -> (r: usize)
        requires
            self.body.valid(),
        ensures
            r == spec_header_size() + self.body.spec_wire_bytes().len(),
    {
        12 + self.body.wire_size()
    }

    /// The bytes of the packet serialized in cleartext: the header with
    /// the unencrypted flag set, then the body untouched.
    pub open spec fn spec_serialized_cleartext(&self) -> Seq<u8> {
        let h = HeaderInfo {
            flags: PacketFlags { bits: self.header.flags.bits | 0x01 },
            ..self.header
        };
        h.spec_wire_bytes(B::spec_packet_type(), self.body.spec_wire_bytes().len() as u32)
            + self.body.spec_wire_bytes()
    }

    /// The bytes of the packet serialized under a shared secret: the
    /// header with the unencrypted flag cleared, then the body XORed with
    /// the pseudo-pad that this header and the secret determine.
    pub open spec fn spec_serialized_obfuscated(&self, key: Seq<u8>) -> Seq<u8> {
        let h = HeaderInfo {
            flags: PacketFlags { bits: self.header.flags.bits & 0xfe },
            ..self.header
        };
        h.spec_wire_bytes(B::spec_packet_type(), self.body.spec_wire_bytes().len() as u32)
            + crate::obfuscate::xor_with_pad(
            crate::obfuscate::header_pad_prefix(h, key),
            self.body.spec_wire_bytes(),
        )
    }


    /// The bytes of the packet serialized with the header flags exactly
    /// as they stand: the header completed with the body's type and
    /// length, then the body untouched.
    pub open spec fn spec_serialized_raw(&self) -> Seq<u8> {
        self.header.spec_wire_bytes(
            B::spec_packet_type(),
            self.body.spec_wire_bytes().len() as u32,
        ) + self.body.spec_wire_bytes()
    }

    /// Serializes the packet at the front of `buffer` without touching
    /// the header flags or the body; fails without touching the buffer
    /// when it is shorter than the packet.
    pub fn serialize_into_buffer(&self, buffer: &mut Vec<u8>) -> (r: Result<usize, SerializeError>)
        requires
            self.body.valid(),
        ensures
            match r {
                Ok(n) => {
                    &&& n == spec_header_size() + self.body.spec_wire_bytes().len()
                    &&& n <= old(buffer)@.len()
                    &&& final(buffer)@ == self.spec_serialized_raw() + old(buffer)@.skip(n as int)
                },
                Err(e) => {
                    &&& e == SerializeError::NotEnoughSpace
                    &&& old(buffer)@.len() < spec_header_size()
                        + self.body.spec_wire_bytes().len()
                    &&& final(buffer)@ == old(buffer)@
                },
            },
    {
        let wire_size = self.wire_size();
        if buffer.len() < wire_size {
            return Err(SerializeError::NotEnoughSpace);
        }
        let mut packet_bytes: Vec<u8> = Vec::new();
        self.header.serialize(&mut packet_bytes, B::packet_type(), self.body.wire_size() as u32);
        self.body.append_wire_bytes(&mut packet_bytes);
        crate::wire::overwrite_prefix(buffer, &packet_bytes);
        proof {
            assert(packet_bytes@ =~= self.spec_serialized_raw());
        }
        Ok(wire_size)
    }

    /// Serializes the packet in cleartext at the front of `buffer`,
    /// setting the unencrypted flag; fails without touching the buffer
    /// when it is shorter than the packet.
    pub fn serialize_unobfuscated(self, buffer: &mut Vec<u8>) -> (r: Result<usize, SerializeError>)
        requires
            self.body.valid(),
        ensures
            match r {
                Ok(n) => {
                    &&& n == spec_header_size() + self.body.spec_wire_bytes().len()
                    &&& n <= old(buffer)@.len()
                    &&& final(buffer)@ == self.spec_serialized_cleartext() + old(buffer)@.skip(
                        n as int,
                    )
                },
                Err(e) => {
                    &&& e == SerializeError::NotEnoughSpace
                    &&& old(buffer)@.len() < spec_header_size()
                        + self.body.spec_wire_bytes().len()
                    &&& final(buffer)@ == old(buffer)@
                },
            },
    {
        let wire_size = self.wire_size();
        if buffer.len() < wire_size {
            return Err(SerializeError::NotEnoughSpace);
        }
        let header = HeaderInfo { flags: self.header.flags.with_unencrypted(), ..self.header };
        let mut body_bytes: Vec<u8> = Vec::new();
        self.body.append_wire_bytes(&mut body_bytes);
        let mut packet_bytes: Vec<u8> = Vec::new();
        header.serialize(&mut packet_bytes, B::packet_type(), body_bytes.len() as u32);
        crate::wire::push_bytes(&mut packet_bytes, &body_bytes);
        crate::wire::overwrite_prefix(buffer, &packet_bytes);
        proof {
            assert(packet_bytes@ =~= self.spec_serialized_cleartext());
        }
        Ok(wire_size)
    }

    /// Serializes the packet at the front of `buffer`, clearing the
    /// unencrypted flag and obfuscating the body with the pad drawn from
    /// the secret; fails without touching the buffer when it is shorter
    /// than the packet.
    pub fn serialize(self, secret_key: &Vec<u8>, buffer: &mut Vec<u8>) -> (r: Result<
        usize,
        SerializeError,
    >)
        requires
            self.body.valid(),
        ensures
            match r {
                Ok(n) => {
                    &&& n == spec_header_size() + self.body.spec_wire_bytes().len()
                    &&& n <= old(buffer)@.len()
                    &&& final(buffer)@ == self.spec_serialized_obfuscated(secret_key@) + old(
                        buffer,
                    )@.skip(n as int)
                },
                Err(e) => {
                    &&& e == SerializeError::NotEnoughSpace
                    &&& old(buffer)@.len() < spec_header_size()
                        + self.body.spec_wire_bytes().len()
                    &&& final(buffer)@ == old(buffer)@
                },
            },
    {
        let wire_size = self.wire_size();
        if buffer.len() < wire_size {
            return Err(SerializeError::NotEnoughSpace);
        }
        let header = HeaderInfo { flags: self.header.flags.without_unencrypted(), ..self.header };
        let mut body_bytes: Vec<u8> = Vec::new();
        self.body.append_wire_bytes(&mut body_bytes);
        crate::obfuscate::xor_body_with_pad(&header, secret_key, &mut body_bytes);
        let mut packet_bytes: Vec<u8> = Vec::new();
        header.serialize(&mut packet_bytes, B::packet_type(), self.body.wire_size() as u32);
        crate::wire::push_bytes(&mut packet_bytes, &body_bytes);
        crate::wire::overwrite_prefix(buffer, &packet_bytes);
        proof {
            assert(packet_bytes@ =~= self.spec_serialized_obfuscated(secret_key@));
        }
        Ok(wire_size)
    }
}


/// Writes a body's wire bytes at the front of `buffer`; fails without
/// touching the buffer when it is shorter than the body.
pub fn serialize_into_buffer<B: SerializeBody>(body: &B, buffer: &mut Vec<u8>) -> (r: Result<
    usize,
    SerializeError,
>)
    requires
        body.valid(),
    ensures
        match r {
            Ok(n) => {
                &&& n == body.spec_wire_bytes().len()
                &&& n <= old(buffer)@.len()
                &&& final(buffer)@ == body.spec_wire_bytes() + old(buffer)@.skip(n as int)
            },
            Err(e) => {
                &&& e == SerializeError::NotEnoughSpace
                &&& old(buffer)@.len() < body.spec_wire_bytes().len()
                &&& final(buffer)@ == old(buffer)@
            },
        },
{
    let n = body.wire_size();
    if buffer.len() < n {
        return Err(SerializeError::NotEnoughSpace);
    }
    let mut bytes: Vec<u8> = Vec::new();
    body.append_wire_bytes(&mut bytes);
    crate::wire::overwrite_prefix(buffer, &bytes);
    Ok(n)
}

/// What reading the packet type, body length and body section of a packet
/// buffer yields, once the header is parsed and any obfuscation undone.
/// `body_bytes` already holds the deobfuscated bytes after the header.
pub open spec fn spec_parse_body_section<B: DeserializeBody>(
    type_byte: u8,
    length_bytes: Seq<u8>,
    body_bytes: Seq<u8>,
) -> Result<B::V, DeserializeError> {
    match PacketType::spec_parse(type_byte) {
        Err(e) => Err(e),
        Ok(actual) => if actual != B::spec_packet_type() {
            Err(
                DeserializeError::PacketTypeMismatch {
                    expected: B::spec_packet_type(),
                    actual,
                },
            )
        } else {
            let body_length = u32_of_be(
                length_bytes[0],
                length_bytes[1],
                length_bytes[2],
                length_bytes[3],
            ) as int;
            if body_bytes.len() < body_length {
                Err(DeserializeError::UnexpectedEnd)
            } else {
                B::spec_parse(body_bytes.take(body_length))
            }
        },
    }
}

/// What deserializing a cleartext packet buffer yields: the parsed header
/// and body, after checking that the unencrypted flag is set.
pub open spec fn spec_parse_packet_cleartext<B: DeserializeBody>(bytes: Seq<u8>) -> Result<
    (HeaderInfo, B::V),
    DeserializeError,
> {
    match HeaderInfo::spec_parse(bytes) {
        Err(e) => Err(e),
        Ok(header) => if !header.flags.spec_unencrypted() {
            Err(DeserializeError::IncorrectUnencryptedFlag)
        } else {
            match spec_parse_body_section::<B>(
                bytes[1],
                bytes.subrange(8, 12),
                bytes.skip(12),
            ) {
                Err(e) => Err(e),
                Ok(body) => Ok((header, body)),
            }
        },
    }
}

/// What deserializing an obfuscated packet buffer under a secret yields:
/// the parsed header, and the body parsed after the pad is XORed away;
/// a set unencrypted flag is rejected.
pub open spec fn spec_parse_packet_obfuscated<B: DeserializeBody>(key: Seq<u8>, bytes: Seq<u8>) -> Result<
    (HeaderInfo, B::V),
    DeserializeError,
> {
    match HeaderInfo::spec_parse(bytes) {
        Err(e) => Err(e),
        Ok(header) => if header.flags.spec_unencrypted() {
            Err(DeserializeError::IncorrectUnencryptedFlag)
        } else {
            match spec_parse_body_section::<B>(
                bytes[1],
                bytes.subrange(8, 12),
                crate::obfuscate::xor_with_pad(
                    crate::obfuscate::header_pad_prefix(header, key),
                    bytes.skip(12),
                ),
            ) {
                Err(e) => Err(e),
                Ok(body) => Ok((header, body)),
            }
        },
    }
}

impl<B: PacketBody + DeserializeBody> Packet<B> {
    /// Reads the packet type, body length and body out of the bytes after
    /// the header, with `body_bytes` already deobfuscated.
    fn deserialize_body_section(
        type_byte: u8,
        length_bytes: &Vec<u8>,
        body_bytes: Vec<u8>,
    ) -> (r: Result<B, DeserializeError>)
        requires
            length_bytes@.len() == 4,
        ensures
            match r {
                Ok(b) => spec_parse_body_section::<B>(type_byte, length_bytes@, body_bytes@)
                    == Ok::<B::V, DeserializeError>(b@),
                Err(e) => spec_parse_body_section::<B>(type_byte, length_bytes@, body_bytes@)
                    == Err::<B::V, DeserializeError>(e),
            },
    {
        let actual = match PacketType::from_wire(type_byte) {
            Ok(t) => t,
            Err(e) => {
                return Err(e);
            },
        };
        let expected = B::packet_type();
        if actual != expected {
            return Err(DeserializeError::PacketTypeMismatch { expected, actual });
        }
        let body_length = crate::wire::read_u32_be(length_bytes, 0);
        if (body_bytes.len() as u64) < (body_length as u64) {
            return Err(DeserializeError::UnexpectedEnd);
        }
        let body_slice = crate::wire::subvec(&body_bytes, 0, body_length as usize);
        proof {
            assert(body_slice@ =~= body_bytes@.take(body_length as int));
        }
        B::deserialize_from_buffer(&body_slice)
    }

    /// Deserializes an obfuscated packet: parses the header, rejects a
    /// set unencrypted flag, undoes the pad with the given secret, and
    /// parses the body.
    pub fn deserialize(secret_key: &Vec<u8>, buffer: &Vec<u8>) -> (r: Result<
        Packet<B>,
        DeserializeError,
    >)
        requires
            buffer@.len() >= 12,
        ensures
            match r {
                Ok(p) => {
                    &&& spec_parse_packet_obfuscated::<B>(secret_key@, buffer@) matches Ok(hb)
                    &&& spec_parse_packet_obfuscated::<B>(secret_key@, buffer@)->Ok_0.0
                        == p.header
                    &&& spec_parse_packet_obfuscated::<B>(secret_key@, buffer@)->Ok_0.1 == p.body@
                    &&& p.header.flags.valid()
                    &&& !p.header.flags.spec_unencrypted()
                },
                Err(e) => spec_parse_packet_obfuscated::<B>(secret_key@, buffer@) == Err::<
                    (HeaderInfo, B::V),
                    DeserializeError,
                >(e),
            },
    {
        let header = match HeaderInfo::deserialize(buffer) {
            Ok(h) => h,
            Err(e) => {
                return Err(e);
            },
        };
        if header.flags.unencrypted_set() {
            return Err(DeserializeError::IncorrectUnencryptedFlag);
        }
        let mut body_bytes = crate::wire::subvec(buffer, 12, buffer.len());
        proof {
            assert(body_bytes@ =~= buffer@.skip(12));
        }
        crate::obfuscate::xor_body_with_pad(&header, secret_key, &mut body_bytes);
        let length_bytes = crate::wire::subvec(buffer, 8, 12);
        let body = match Self::deserialize_body_section(buffer[1], &length_bytes, body_bytes) {
            Ok(b) => b,
            Err(e) => {
                return Err(e);
            },
        };
        Ok(Packet { header, body })
    }

    /// Deserializes a cleartext packet: parses the header, rejects a
    /// cleared unencrypted flag, and parses the body as it stands.
    pub fn deserialize_unobfuscated(buffer: &Vec<u8>) -> (r: Result<Packet<B>, DeserializeError>)
        requires
            buffer@.len() >= 12,
        ensures
            match r {
                Ok(p) => {
                    &&& spec_parse_packet_cleartext::<B>(buffer@) matches Ok(hb)
                    &&& spec_parse_packet_cleartext::<B>(buffer@)->Ok_0.0 == p.header
                    &&& spec_parse_packet_cleartext::<B>(buffer@)->Ok_0.1 == p.body@
                    &&& p.header.flags.valid()
                    &&& p.header.flags.spec_unencrypted()
                },
                Err(e) => spec_parse_packet_cleartext::<B>(buffer@) == Err::<
                    (HeaderInfo, B::V),
                    DeserializeError,
                >(e),
            },
    {
        let header = match HeaderInfo::deserialize(buffer) {
            Ok(h) => h,
            Err(e) => {
                return Err(e);
            },
        };
        if !header.flags.unencrypted_set() {
            return Err(DeserializeError::IncorrectUnencryptedFlag);
        }
        let body_bytes = crate::wire::subvec(buffer, 12, buffer.len());
        proof {
            assert(body_bytes@ =~= buffer@.skip(12));
        }
        let length_bytes = crate::wire::subvec(buffer, 8, 12);
        let body = match Self::deserialize_body_section(buffer[1], &length_bytes, body_bytes) {
            Ok(b) => b,
            Err(e) => {
                return Err(e);
            },
        };
        Ok(Packet { header, body })
    }
}


/// Round trip in cleartext: for any packet whose body is well formed and
/// parses back to its own model, and whose header flags are valid,
/// deserializing the serialized bytes yields the same header (with the
/// unencrypted flag set, as serialization sets it) and the body's model.
pub proof fn lemma_packet_round_trip_cleartext<B: SerializeBody + DeserializeBody>(
    p: Packet<B>,
    v: B::V,
)
    requires
        p.body.valid(),
        p.body.spec_wire_bytes().len() <= 0xffff_ffff,
        p.header.flags.valid(),
        B::spec_parse(p.body.spec_wire_bytes()) == Ok::<B::V, DeserializeError>(v),
    ensures
        spec_parse_packet_cleartext::<B>(p.spec_serialized_cleartext()) == Ok::<
            (HeaderInfo, B::V),
            DeserializeError,
        >(
            (
                HeaderInfo {
                    flags: PacketFlags { bits: p.header.flags.bits | 0x01 },
                    ..p.header
                },
                v,
            ),
        ),
{
    let h = HeaderInfo { flags: PacketFlags { bits: p.header.flags.bits | 0x01 }, ..p.header };
    let body = p.body.spec_wire_bytes();
    let header_bytes = h.spec_wire_bytes(B::spec_packet_type(), body.len() as u32);
    let bytes = p.spec_serialized_cleartext();
    let bits = p.header.flags.bits;
    assert((bits & 0xfa == 0) ==> ((bits | 0x01) & 0xfa == 0 && (bits | 0x01) & 0x01 == 0x01))
        by (bit_vector);
    lemma_parse_of_packet_prefix(h, B::spec_packet_type(), body.len() as u32, bytes);
    assert(HeaderInfo::spec_parse(bytes) == Ok::<HeaderInfo, DeserializeError>(h));
    assert(h.flags.spec_unencrypted());
    assert(bytes.skip(12) =~= body);
    assert(bytes.subrange(8, 12) =~= be32(body.len() as u32));
    lemma_be32_round_trip(body.len() as u32);
    let lb = bytes.subrange(8, 12);
    assert(u32_of_be(lb[0], lb[1], lb[2], lb[3]) == body.len() as u32);
    assert(bytes[1] == B::spec_packet_type().spec_wire_value());
    assert(PacketType::spec_parse(bytes[1]) == Ok::<PacketType, DeserializeError>(
        B::spec_packet_type(),
    ));
    assert(bytes.skip(12).take(body.len() as int) =~= body);
    assert(spec_parse_body_section::<B>(bytes[1], lb, bytes.skip(12)) == Ok::<
        B::V,
        DeserializeError,
    >(v));
}

/// Round trip under a shared secret: for any packet whose body is well
/// formed and parses back to its own model, and whose header flags are
/// valid, deserializing the obfuscated bytes under the same secret yields
/// the same header (with the unencrypted flag cleared, as serialization
/// clears it) and the body's model.
pub proof fn lemma_packet_round_trip_obfuscated<B: SerializeBody + DeserializeBody>(
    p: Packet<B>,
    v: B::V,
    key: Seq<u8>,
)
    requires
        p.body.valid(),
        p.body.spec_wire_bytes().len() <= 0xffff_ffff,
        p.header.flags.valid(),
        B::spec_parse(p.body.spec_wire_bytes()) == Ok::<B::V, DeserializeError>(v),
    ensures
        spec_parse_packet_obfuscated::<B>(key, p.spec_serialized_obfuscated(key)) == Ok::<
            (HeaderInfo, B::V),
            DeserializeError,
        >(
            (
                HeaderInfo {
                    flags: PacketFlags { bits: p.header.flags.bits & 0xfe },
                    ..p.header
                },
                v,
            ),
        ),
{
    let h = HeaderInfo { flags: PacketFlags { bits: p.header.flags.bits & 0xfe }, ..p.header };
    let body = p.body.spec_wire_bytes();
    let obfuscated = crate::obfuscate::xor_with_pad(
        crate::obfuscate::header_pad_prefix(h, key),
        body,
    );
    let bytes = p.spec_serialized_obfuscated(key);
    let bits = p.header.flags.bits;
    assert((bits & 0xfa == 0) ==> ((bits & 0xfe) & 0xfa == 0 && (bits & 0xfe) & 0x01 == 0))
        by (bit_vector);
    assert(obfuscated.len() == body.len());
    lemma_parse_of_packet_prefix(h, B::spec_packet_type(), body.len() as u32, bytes);
    assert(HeaderInfo::spec_parse(bytes) == Ok::<HeaderInfo, DeserializeError>(h));
    assert(!h.flags.spec_unencrypted());
    assert(bytes.skip(12) =~= obfuscated);
    crate::obfuscate::lemma_xor_involution(crate::obfuscate::header_pad_prefix(h, key), body);
    let unobfuscated = crate::obfuscate::xor_with_pad(
        crate::obfuscate::header_pad_prefix(h, key),
        bytes.skip(12),
    );
    assert(unobfuscated == body);
    assert(bytes.subrange(8, 12) =~= be32(body.len() as u32));
    lemma_be32_round_trip(body.len() as u32);
    let lb = bytes.subrange(8, 12);
    assert(u32_of_be(lb[0], lb[1], lb[2], lb[3]) == body.len() as u32);
    assert(bytes[1] == B::spec_packet_type().spec_wire_value());
    assert(PacketType::spec_parse(bytes[1]) == Ok::<PacketType, DeserializeError>(
        B::spec_packet_type(),
    ));
    assert(unobfuscated.take(body.len() as int) =~= body);
    assert(spec_parse_body_section::<B>(bytes[1], lb, unobfuscated) == Ok::<
        B::V,
        DeserializeError,
    >(v));
}

/// Parsing the header fields of a serialized packet yields the header
/// that was written, when its flags are valid.
proof fn lemma_parse_of_packet_prefix(
    h: HeaderInfo,
    packet_type: PacketType,
    body_length: u32,
    bytes: Seq<u8>,
)
    requires
        h.flags.valid(),
        bytes.len() >= 12,
        forall|i: int|
            0 <= i < 12 ==> bytes[i] == h.spec_wire_bytes(packet_type, body_length)[i],
    ensures
        HeaderInfo::spec_parse(bytes) == Ok::<HeaderInfo, DeserializeError>(h),
{
    let header_bytes = h.spec_wire_bytes(packet_type, body_length);
    assert(bytes[0] == h.version.spec_wire_value());
    assert(bytes[2] == h.sequence_number);
    assert(bytes[3] == h.flags.bits);
    assert(bytes[4] == be32(h.session_id)[0]);
    assert(bytes[5] == be32(h.session_id)[1]);
    assert(bytes[6] == be32(h.session_id)[2]);
    assert(bytes[7] == be32(h.session_id)[3]);
    lemma_be32_round_trip(h.session_id);
}

/// Parsing the 12 header bytes of any header with valid flags yields the
/// header back.
pub proof fn lemma_header_round_trip(h: HeaderInfo, packet_type: PacketType, body_length: u32)
    requires
        h.flags.valid(),
    ensures
        HeaderInfo::spec_parse(h.spec_wire_bytes(packet_type, body_length)) == Ok::<
            HeaderInfo,
            DeserializeError,
        >(h),
{
    let bytes = h.spec_wire_bytes(packet_type, body_length);
    assert(bytes[0] == h.version.spec_wire_value());
    assert(bytes[2] == h.sequence_number);
    assert(bytes[3] == h.flags.bits);
    assert(bytes[4] == be32(h.session_id)[0]);
    assert(bytes[5] == be32(h.session_id)[1]);
    assert(bytes[6] == be32(h.session_id)[2]);
    assert(bytes[7] == be32(h.session_id)[3]);
    lemma_be32_round_trip(h.session_id);
}

} // verus!
