//! A verified implementation of the TACACS+ (RFC 8907) client protocol:
//! packet serialization and parsing for the authentication, authorization
//! and accounting families, MD5 pseudo-pad body obfuscation, and the
//! session-level bookkeeping a client needs (sequence numbers,
//! single-connection mode, argument merging).

use vstd::prelude::*;

pub mod accounting;
pub mod arguments;
pub mod client;
pub mod authentication;
pub mod authorization;
pub mod fields;
pub mod obfuscate;
pub mod packet;
pub mod task;
pub mod text;
pub mod trusted;
pub mod wire;

pub use arguments::{Argument, ArgumentOwned, Arguments, InvalidArgument};
pub use client::{
    AccountingResponse, AuthenticationResponse, AuthorizationResponse, ClientError,
    ConnectionState, ContextBuilder, ResponseStatus, SessionContext,
};
pub use fields::{
    AuthenticationContext, AuthenticationMethod, AuthenticationService, AuthenticationType,
    PrivilegeLevel, UserInformation,
};
pub use packet::{HeaderInfo, Packet, PacketBody, PacketFlags, PacketType};
pub use task::AccountingTask;
pub use text::FieldText;

verus! {

/// Bytes on the wire are printable ASCII when they lie between space and `~`.
pub open spec fn byte_is_printable_ascii(b: u8) -> bool {
    0x20 <= b <= 0x7e
}

/// A character is printable ASCII when its code point lies between space and `~`.
pub open spec fn char_is_printable_ascii(c: char) -> bool {
    0x20 <= (c as u32) <= 0x7e
}

/// Checks printability of a single character.
pub fn is_printable_ascii_char(c: char) -> (r: bool)
    ensures
        r == char_is_printable_ascii(c),
{
    let code: u32 = c as u32;
    0x20 <= code && code <= 0x7e
}

/// The major version of the TACACS+ protocol.
#[non_exhaustive]
#[derive(Clone, Copy, Debug, PartialEq, Eq, Structural, Hash)]
pub enum MajorVersion {
    /// The only major version specified in RFC 8907, numbered `0xc`.
    RFC8907,
}

/// The minor version of the TACACS+ protocol, which selects the legal
/// authentication types.
#[non_exhaustive]
#[derive(Clone, Copy, Debug, PartialEq, Eq, Structural, Hash)]
pub enum MinorVersion {
    /// The default minor version, used for ASCII authentication.
    Default,
    /// Minor version 1, used for PAP and the CHAP family.
    V1,
}

/// The full protocol version: major and minor packed into one byte.
#[derive(Debug, PartialEq, Eq, Structural, Clone, Copy, Hash)]
pub struct Version {
    pub major: MajorVersion,
    pub minor: MinorVersion,
}

impl Version {
    /// The packed version byte: the major number in the upper four bits,
    /// the minor number in the lower four.
    pub open spec fn spec_wire_value(self) -> u8 {
        match self.minor {
            MinorVersion::Default => 0xc0,
            MinorVersion::V1 => 0xc1,
        }
    }

    /// The version a byte denotes: the major number must be `0xc` and the
    /// minor number 0 or 1; any other byte is an invalid version.
    pub open spec fn spec_parse(value: u8) -> Result<Version, DeserializeError> {
        if value == 0xc0 {
            Ok(Version { major: MajorVersion::RFC8907, minor: MinorVersion::Default })
        } else if value == 0xc1 {
            Ok(Version { major: MajorVersion::RFC8907, minor: MinorVersion::V1 })
        } else {
            Err(DeserializeError::InvalidVersion(value))
        }
    }

    /// Bundles together a major and minor version.
    pub fn new(major: MajorVersion, minor: MinorVersion) -> (r: Self)
        ensures
            r.major == major,
            r.minor == minor,
    {
        Self { major, minor }
    }

    /// The major version.
    pub fn major(&self) -> (r: MajorVersion)
        ensures
            r == self.major,
    {
        self.major
    }

    /// The minor version.
    pub fn minor(&self) -> (r: MinorVersion)
        ensures
            r == self.minor,
    {
        self.minor
    }

    /// Packs the version into its wire byte.
    pub fn wire_value(self) -> (r: u8)
        ensures
            r == self.spec_wire_value(),
    {
        match self.minor {
            MinorVersion::Default => 0xc0,
            MinorVersion::V1 => 0xc1,
        }
    }

    /// Reads a version byte, rejecting an unknown major or minor number.
    pub fn from_wire(value: u8) -> (r: Result<Version, DeserializeError>)
        ensures
            r == Version::spec_parse(value),
    {
        if value == 0xc0 {
            Ok(Version { major: MajorVersion::RFC8907, minor: MinorVersion::Default })
        } else if value == 0xc1 {
            Ok(Version { major: MajorVersion::RFC8907, minor: MinorVersion::V1 })
        } else {
            Err(DeserializeError::InvalidVersion(value))
        }
    }
}

impl Default for Version {
    /// The RFC 8907 major version with the default minor version.
    fn default() -> (r: Self)
        ensures
            r.major == MajorVersion::RFC8907,
            r.minor == MinorVersion::Default,
    {
        Self { major: MajorVersion::RFC8907, minor: MinorVersion::Default }
    }
}

/// An error from serializing a packet or one of its components.
#[non_exhaustive]
#[derive(Debug, PartialEq, Eq, Structural, Clone, Copy, Hash)]
pub enum SerializeError {
    /// The provided buffer did not have enough space for the object.
    NotEnoughSpace,
    /// The length of a field exceeded the maximum value encodeable on the wire.
    LengthOverflow,
    /// Mismatch between the expected and actual number of bytes written.
    /// Kept for completeness of the error taxonomy; the serializers in
    /// this crate compute their buffers exactly, so they never produce it.
    LengthMismatch {
        /// The number of bytes that should have been written.
        expected: usize,
        /// The number of bytes actually written.
        actual: usize,
    },
}

/// An error from deserializing a full or partial packet.
#[non_exhaustive]
#[derive(Debug, PartialEq, Eq, Structural, Clone, Copy, Hash)]
pub enum DeserializeError {
    /// Invalid status byte in a reply.
    InvalidStatus(u8),
    /// Invalid packet type number on the wire.
    InvalidPacketType(u8),
    /// Invalid header flag byte.
    InvalidHeaderFlags(u8),
    /// Invalid body flag byte.
    InvalidBodyFlags(u8),
    /// Invalid version number.
    InvalidVersion(u8),
    /// Invalid argument encoding in a reply body.
    InvalidArgument(crate::arguments::InvalidArgument),
    /// Mismatch between the expected and received packet types.
    PacketTypeMismatch {
        /// The expected packet type.
        expected: crate::packet::PacketType,
        /// The packet type actually parsed.
        actual: crate::packet::PacketType,
    },
    /// A text field was not printable ASCII although it had to be.
    BadText,
    /// The unencrypted flag did not match the presence of a shared secret.
    IncorrectUnencryptedFlag,
    /// The buffer holding a raw body disagreed with the length fields inside
    /// the body.
    WrongBodyBufferSize {
        /// The length the body's own fields add up to.
        expected: usize,
        /// The length of the buffer holding the body.
        buffer_size: usize,
    },
    /// The object's representation was cut off.
    UnexpectedEnd,
}

} // verus!
