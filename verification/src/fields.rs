//! Field primitives shared by the packet bodies: the enumerated
//! authentication method, type and service, the privilege level, and the
//! authentication-context and user-information bundles.

use vstd::prelude::*;
use vstd::utf8::encode_utf8;
use crate::text::{text_is_printable, chars_as_bytes, FieldText};
use crate::{MinorVersion, SerializeError};

verus! {

/// The method used to authenticate to the TACACS+ client, sent in
/// authorization and accounting requests.
#[derive(Clone, Copy, PartialEq, Eq, Structural, Debug, Hash)]
pub enum AuthenticationMethod {
    /// Unknown.
    NotSet,
    /// No authentication performed.
    NoAuthentication,
    /// Kerberos version 5.
    Kerberos5,
    /// Fixed password associated with an access line.
    Line,
    /// Granting new privileges, as `su(1)` does.
    Enable,
    /// Client-local user database.
    Local,
    /// The TACACS+ protocol itself.
    TacacsPlus,
    /// Unqualified guest authentication.
    Guest,
    /// RADIUS.
    Radius,
    /// Kerberos version 4.
    Kerberos4,
    /// An r-command, such as `rlogin(1)`.
    RCommand,
}

impl AuthenticationMethod {
    /// The byte that stands for this method on the wire.
    pub open spec fn spec_wire_value(self) -> u8 {
        match self {
            AuthenticationMethod::NotSet => 0x00,
            AuthenticationMethod::NoAuthentication => 0x01,
            AuthenticationMethod::Kerberos5 => 0x02,
            AuthenticationMethod::Line => 0x03,
            AuthenticationMethod::Enable => 0x04,
            AuthenticationMethod::Local => 0x05,
            AuthenticationMethod::TacacsPlus => 0x06,
            AuthenticationMethod::Guest => 0x08,
            AuthenticationMethod::Radius => 0x10,
            AuthenticationMethod::Kerberos4 => 0x11,
            AuthenticationMethod::RCommand => 0x20,
        }
    }

    /// Encodes this method as its wire byte.
    pub fn wire_value(self) -> (r: u8)
        ensures
            r == self.spec_wire_value(),
    {
        match self {
            AuthenticationMethod::NotSet => 0x00,
            AuthenticationMethod::NoAuthentication => 0x01,
            AuthenticationMethod::Kerberos5 => 0x02,
            AuthenticationMethod::Line => 0x03,
            AuthenticationMethod::Enable => 0x04,
            AuthenticationMethod::Local => 0x05,
            AuthenticationMethod::TacacsPlus => 0x06,
            AuthenticationMethod::Guest => 0x08,
            AuthenticationMethod::Radius => 0x10,
            AuthenticationMethod::Kerberos4 => 0x11,
            AuthenticationMethod::RCommand => 0x20,
        }
    }
}

/// A privilege level in the range 0 to 15, inclusive.
#[derive(Debug, PartialEq, Eq, Structural, Clone, Copy, Hash)]
pub struct PrivilegeLevel {
    pub level: u8,
}

impl PrivilegeLevel {
    /// Whether the stored level lies in the legal range.
    pub open spec fn valid(self) -> bool {
        self.level <= 15
    }

    /// The level as an integer.
    pub open spec fn spec_value(self) -> u8 {
        self.level
    }

    /// Converts an integer to a `PrivilegeLevel` when it lies in the legal
    /// range 0 to 15, and rejects it otherwise.
    pub fn new(level: u8) -> (r: Option<PrivilegeLevel>)
        ensures
            match r {
                Some(p) => level <= 15 && p.spec_value() == level && p.valid(),
                None => level > 15,
            },
    {
        if level <= 15 {
            Some(PrivilegeLevel { level })
        } else {
            None
        }
    }

    /// The level as an integer.
    pub fn value(self) -> (r: u8)
        ensures
            r == self.spec_value(),
    {
        self.level
    }
}

impl Default for PrivilegeLevel {
    /// The lowest privilege level, 0.
    fn default() -> (r: Self)
        ensures
            r.spec_value() == 0,
            r.valid(),
    {
        PrivilegeLevel { level: 0 }
    }
}

/// The kind of authentication carried in a session.
#[derive(Clone, Copy, Debug, PartialEq, Eq, Structural, Hash)]
pub enum AuthenticationType {
    /// Not set; only legal for authorization and accounting requests.
    NotSet,
    /// Plain text username and password exchange.
    Ascii,
    /// The Password Authentication Protocol (RFC 1334).
    Pap,
    /// The Challenge-Handshake Authentication Protocol (RFC 1334).
    Chap,
    /// Version 1 of Microsoft's CHAP extension.
    MsChap,
    /// Version 2 of Microsoft's CHAP extension.
    MsChapV2,
}

impl AuthenticationType {
    /// The byte that stands for this authentication type on the wire.
    pub open spec fn spec_wire_value(self) -> u8 {
        match self {
            AuthenticationType::NotSet => 0x00,
            AuthenticationType::Ascii => 0x01,
            AuthenticationType::Pap => 0x02,
            AuthenticationType::Chap => 0x03,
            AuthenticationType::MsChap => 0x05,
            AuthenticationType::MsChapV2 => 0x06,
        }
    }

    /// Encodes this authentication type as its wire byte.
    pub fn wire_value(self) -> (r: u8)
        ensures
            r == self.spec_wire_value(),
    {
        match self {
            AuthenticationType::NotSet => 0x00,
            AuthenticationType::Ascii => 0x01,
            AuthenticationType::Pap => 0x02,
            AuthenticationType::Chap => 0x03,
            AuthenticationType::MsChap => 0x05,
            AuthenticationType::MsChapV2 => 0x06,
        }
    }

    /// The protocol minor version a body carrying this type must use:
    /// ASCII demands the default minor version, every other set type
    /// demands minor version 1, and `NotSet` demands nothing.
    pub open spec fn spec_required_minor_version(self) -> Option<MinorVersion> {
        match self {
            AuthenticationType::NotSet => None,
            AuthenticationType::Ascii => Some(MinorVersion::Default),
            _ => Some(MinorVersion::V1),
        }
    }

    /// Returns the required minor version for this type, if it has one.
    pub fn required_minor_version(&self) -> (r: Option<MinorVersion>)
        ensures
            r == self.spec_required_minor_version(),
    {
        match self {
            AuthenticationType::NotSet => None,
            AuthenticationType::Ascii => Some(MinorVersion::Default),
            _ => Some(MinorVersion::V1),
        }
    }
}

/// A TACACS+ authentication service.
#[derive(Clone, Copy, Debug, PartialEq, Eq, Structural, Hash)]
pub enum AuthenticationService {
    /// No authentication performed.
    NoService,
    /// Regular login to a client device.
    Login,
    /// A request for a change in privileges, as `su(1)`.
    Enable,
    /// The Point-to-Point Protocol.
    Ppp,
    /// PT authentication.
    Pt,
    /// The r-command suite, for example `rlogin(1)`.
    RCommand,
    /// The X.25 suite.
    X25,
    /// The NetWare Asynchronous Support Interface.
    Nasi,
    /// Firewall proxy.
    FwProxy,
}

impl AuthenticationService {
    /// The byte that stands for this service on the wire.
    pub open spec fn spec_wire_value(self) -> u8 {
        match self {
            AuthenticationService::NoService => 0x00,
            AuthenticationService::Login => 0x01,
            AuthenticationService::Enable => 0x02,
            AuthenticationService::Ppp => 0x03,
            AuthenticationService::Pt => 0x05,
            AuthenticationService::RCommand => 0x06,
            AuthenticationService::X25 => 0x07,
            AuthenticationService::Nasi => 0x08,
            AuthenticationService::FwProxy => 0x09,
        }
    }

    /// Encodes this service as its wire byte.
    pub fn wire_value(self) -> (r: u8)
        ensures
            r == self.spec_wire_value(),
    {
        match self {
            AuthenticationService::NoService => 0x00,
            AuthenticationService::Login => 0x01,
            AuthenticationService::Enable => 0x02,
            AuthenticationService::Ppp => 0x03,
            AuthenticationService::Pt => 0x05,
            AuthenticationService::RCommand => 0x06,
            AuthenticationService::X25 => 0x07,
            AuthenticationService::Nasi => 0x08,
            AuthenticationService::FwProxy => 0x09,
        }
    }
}

/// Authentication information common to several request bodies: privilege
/// level, authentication type, and service.
#[derive(Debug, PartialEq, Eq, Structural, Clone, Copy, Hash)]
pub struct AuthenticationContext {
    /// The privilege level of the request.
    pub privilege_level: PrivilegeLevel,
    /// The kind of authentication.
    pub authentication_type: AuthenticationType,
    /// The service requesting authentication.
    pub service: AuthenticationService,
}

impl AuthenticationContext {
    /// The three bytes this bundle occupies on the wire.
    pub open spec fn spec_wire_bytes(self) -> Seq<u8> {
        seq![
            self.privilege_level.spec_value(),
            self.authentication_type.spec_wire_value(),
            self.service.spec_wire_value(),
        ]
    }

    /// Appends the three wire bytes of this bundle to `out`.
    pub fn serialize(&self, out: &mut Vec<u8>)
        ensures
            final(out)@ == old(out)@ + self.spec_wire_bytes(),
    {
        out.push(self.privilege_level.value());
        out.push(self.authentication_type.wire_value());
        out.push(self.service.wire_value());
        assert(out@ =~= old(out)@ + self.spec_wire_bytes());
    }
}

/// Information about the user connected to the TACACS+ client: the user
/// name (any UTF-8), and the printable-ASCII port and remote address.
#[derive(Clone, Debug, PartialEq, Eq, Hash)]
pub struct UserInformation {
    pub user: String,
    pub port: FieldText,
    pub remote_address: FieldText,
}

impl UserInformation {
    /// The bytes that encode the user name on the wire: its UTF-8 encoding.
    pub open spec fn spec_user_bytes(&self) -> Seq<u8> {
        encode_utf8(self.user@)
    }

    /// Well-formedness: all three fields fit in a one-byte length, and the
    /// port and remote address hold printable ASCII.
    pub open spec fn valid(&self) -> bool {
        &&& self.spec_user_bytes().len() <= 255
        &&& self.port@.len() <= 255
        &&& self.remote_address@.len() <= 255
        &&& text_is_printable(self.port@)
        &&& text_is_printable(self.remote_address@)
    }

    /// The three length bytes that open the bundle's wire form.
    pub open spec fn spec_length_bytes(&self) -> Seq<u8> {
        seq![
            self.spec_user_bytes().len() as u8,
            self.port@.len() as u8,
            self.remote_address@.len() as u8,
        ]
    }

    /// The variable-length values: user, port and remote address in order,
    /// with no separators.
    pub open spec fn spec_value_bytes(&self) -> Seq<u8> {
        self.spec_user_bytes() + chars_as_bytes(self.port@) + chars_as_bytes(self.remote_address@)
    }

    /// Bundles user, port, and remote address after checking that each
    /// fits in a one-byte length field; rejects any longer field.
    pub fn new(user: String, port: FieldText, remote_address: FieldText) -> (r: Option<
        UserInformation,
    >)
        requires
            text_is_printable(port@),
            text_is_printable(remote_address@),
        ensures
            match r {
                Some(u) => {
                    &&& u.user@ == user@
                    &&& u.port == port
                    &&& u.remote_address == remote_address
                    &&& u.valid()
                },
                None => encode_utf8(user@).len() > 255 || port@.len() > 255
                    || remote_address@.len() > 255,
            },
    {
        let user_byte_len: usize = user.as_str().as_bytes_vec().len();
        if user_byte_len <= 255 && port.len() <= 255 && remote_address.len() <= 255 {
            Some(
                UserInformation {
                    user,
                    port,
                    remote_address,
                },
            )
        } else {
            None
        }
    }

    /// The number of bytes the bundle occupies on the wire: three length
    /// bytes plus the three values.
    pub fn wire_size(&self) -> (r: usize)
        requires
            self.valid(),
        ensures
            r == 3 + self.spec_value_bytes().len(),
            r <= 3 + 255 * 3,
    {
        let user_bytes = self.user.as_str().as_bytes_vec();
        3 + user_bytes.len() + self.port.len() + self.remote_address.len()
    }

    /// Appends the three field lengths, in order, to `out`.
    pub fn serialize_field_lengths(&self, out: &mut Vec<u8>)
        requires
            self.valid(),
        ensures
            final(out)@ == old(out)@ + self.spec_length_bytes(),
    {
        let user_bytes = self.user.as_str().as_bytes_vec();
        out.push(user_bytes.len() as u8);
        out.push(self.port.len() as u8);
        out.push(self.remote_address.len() as u8);
        assert(out@ =~= old(out)@ + self.spec_length_bytes());
    }

    /// Appends the three field values, in order and with no separators,
    /// to `out`.
    pub fn serialize_field_values(&self, out: &mut Vec<u8>)
        ensures
            final(out)@ == old(out)@ + self.spec_value_bytes(),
    {
        let user_bytes = self.user.as_str().as_bytes_vec();
        crate::wire::push_bytes(out, &user_bytes);
        crate::wire::push_bytes(out, self.port.as_bytes());
        crate::wire::push_bytes(out, self.remote_address.as_bytes());
        assert(out@ =~= old(out)@ + self.spec_value_bytes());
    }
}

} // verus!
