//! The client session layer: session context, response types, the client
//! error taxonomy, request-packet builders for PAP and CHAP
//! authentication and for authorization, argument merging, the
//! single-connection bookkeeping state machine, and the checks applied to
//! every received packet.

use vstd::prelude::*;
use vstd::string::StringSliceAdditionalSpecFns;
use crate::accounting;
use crate::arguments::{all_arguments_valid, Argument, Arguments, ArgumentView, InvalidArgument};
use crate::authentication::{self, Action, Start};
use crate::authorization;
use crate::fields::{
    AuthenticationContext, AuthenticationMethod, AuthenticationService, PrivilegeLevel,
    UserInformation,
};
use crate::packet::{DeserializeBody, HeaderInfo, Packet, PacketBody, PacketFlags};
use crate::text::{text_is_printable, FieldText};
use crate::{DeserializeError, MajorVersion, MinorVersion, SerializeError, Version};

verus! {

/// The final outcome of a session whose status the server reported as a
/// non-error.
#[derive(Clone, Copy, PartialEq, Eq, Structural, Debug, Hash)]
pub enum ResponseStatus {
    /// The operation succeeded.
    Success,
    /// The operation failed.
    Failure,
}

/// An authentication status that maps to neither success nor failure.
#[derive(Debug, PartialEq, Eq, Structural, Clone, Copy, Hash)]
pub struct BadAuthenticationStatus(pub authentication::Status);

/// An authorization status that maps to neither success nor failure.
#[derive(Debug, PartialEq, Eq, Structural, Clone, Copy, Hash)]
pub struct BadAuthorizationStatus(pub authorization::Status);

impl ResponseStatus {
    /// What each authentication status means to the caller: Pass is
    /// success; Fail, Restart and Follow are failures; every other
    /// status is an error.
    pub open spec fn spec_of_authentication(status: authentication::Status) -> Result<
        ResponseStatus,
        BadAuthenticationStatus,
    > {
        match status {
            authentication::Status::Pass => Ok(ResponseStatus::Success),
            authentication::Status::Fail => Ok(ResponseStatus::Failure),
            authentication::Status::Follow => Ok(ResponseStatus::Failure),
            authentication::Status::Restart => Ok(ResponseStatus::Failure),
            _ => Err(BadAuthenticationStatus(status)),
        }
    }

    /// Maps an authentication status to an outcome, per
    /// `spec_of_authentication`.
    pub fn of_authentication(status: authentication::Status) -> (r: Result<
        ResponseStatus,
        BadAuthenticationStatus,
    >)
        ensures
            r == ResponseStatus::spec_of_authentication(status),
    {
        match status {
            authentication::Status::Pass => Ok(ResponseStatus::Success),
            authentication::Status::Fail => Ok(ResponseStatus::Failure),
            authentication::Status::Follow => Ok(ResponseStatus::Failure),
            authentication::Status::Restart => Ok(ResponseStatus::Failure),
            _ => Err(BadAuthenticationStatus(status)),
        }
    }

    /// What each authorization status means to the caller: PassAdd and
    /// PassReplace are successes; Fail and Follow are failures; every
    /// other status is an error.
    pub open spec fn spec_of_authorization(status: authorization::Status) -> Result<
        ResponseStatus,
        BadAuthorizationStatus,
    > {
        match status {
            authorization::Status::PassAdd => Ok(ResponseStatus::Success),
            authorization::Status::PassReplace => Ok(ResponseStatus::Success),
            authorization::Status::Fail => Ok(ResponseStatus::Failure),
            authorization::Status::Follow => Ok(ResponseStatus::Failure),
            _ => Err(BadAuthorizationStatus(status)),
        }
    }

    /// Maps an authorization status to an outcome, per
    /// `spec_of_authorization`.
    pub fn of_authorization(status: authorization::Status) -> (r: Result<
        ResponseStatus,
        BadAuthorizationStatus,
    >)
        ensures
            r == ResponseStatus::spec_of_authorization(status),
    {
        match status {
            authorization::Status::PassAdd => Ok(ResponseStatus::Success),
            authorization::Status::PassReplace => Ok(ResponseStatus::Success),
            authorization::Status::Fail => Ok(ResponseStatus::Failure),
            authorization::Status::Follow => Ok(ResponseStatus::Failure),
            _ => Err(BadAuthorizationStatus(status)),
        }
    }
}

/// A server response from an authentication session.
#[derive(PartialEq, Eq, Debug, Clone, Hash)]
pub struct AuthenticationResponse {
    /// Whether the authentication attempt passed or failed.
    pub status: ResponseStatus,
    /// The message returned by the server, meant for the user.
    pub user_message: String,
    /// Extra data returned by the server.
    pub data: Vec<u8>,
}

/// A server response from an authorization session.
#[derive(PartialEq, Eq, Debug, Clone, Hash)]
pub struct AuthorizationResponse {
    /// Whether the authorization attempt succeeded.
    pub status: ResponseStatus,
    /// The merged sent and received arguments.
    pub arguments: Vec<Argument>,
    /// The message meant for the user.
    pub user_message: String,
    /// The administrative log message.
    pub admin_message: String,
}

/// The response from a successful accounting operation.
#[derive(Debug, PartialEq, Eq, Clone, Hash)]
pub struct AccountingResponse {
    /// The message meant for the user, if any.
    pub user_message: String,
    /// The administrative log message.
    pub admin_message: String,
}

/// An error during a TACACS+ exchange, as the session layer reports it.
/// What goes wrong in the transport itself stays with the caller that
/// owns the connection.
#[non_exhaustive]
#[derive(Debug, PartialEq, Eq, Clone, Hash)]
pub enum ClientError {
    /// The server reported an authentication status that is neither a
    /// pass nor a failure.
    AuthenticationError {
        /// The status returned from the server.
        status: authentication::Status,
        /// The data received from the server.
        data: Vec<u8>,
        /// The message sent by the server.
        user_message: String,
    },
    /// The server reported an authorization status that is neither a
    /// pass nor a failure.
    AuthorizationError {
        /// The status received from the server.
        status: authorization::Status,
        /// The message meant for the user.
        user_message: String,
        /// The administrative log message.
        admin_message: String,
    },
    /// The server reported an accounting status other than success.
    AccountingError {
        /// The status returned by the server.
        status: accounting::Status,
        /// The message meant for the user.
        user_message: String,
        /// The administrative log message.
        admin_message: String,
    },
    /// A packet could not be serialized.
    SerializeError(SerializeError),
    /// An invalid packet was received from the server.
    InvalidPacketReceived(DeserializeError),
    /// Supplied data could not be encoded into a packet.
    InvalidPacketData,
    /// The password was longer than the 255 bytes the data field holds.
    PasswordTooLong,
    /// More than 255 arguments were supplied.
    TooManyArguments,
    /// An invalid argument was supplied.
    InvalidArgument(InvalidArgument),
    /// The session context held a field that cannot go on the wire.
    InvalidContext,
    /// The reply's sequence number was not the expected successor.
    SequenceNumberMismatch {
        /// The sequence number expected from the server.
        expected: u8,
        /// The sequence number actually received.
        actual: u8,
    },
    /// The session's sequence number overflowed, which terminates the
    /// session per RFC 8907 section 4.1.
    SequenceNumberOverflow,
    /// The system clock is set before the Unix epoch, so no timestamp
    /// argument can be produced.
    SystemTimeBeforeEpoch,
}

/// Information shared by every session a client runs: the user, port,
/// remote address, privilege level, and an optional authentication
/// method.
#[derive(Clone, PartialEq, Eq, Hash, Debug)]
pub struct SessionContext {
    pub user: String,
    pub port: String,
    pub remote_address: String,
    pub privilege_level: PrivilegeLevel,
    pub authentication_method: Option<AuthenticationMethod>,
}

impl SessionContext {
    /// The conditions under which the context can go on the wire.
    pub open spec fn spec_encodable(&self) -> bool {
        &&& vstd::utf8::encode_utf8(self.user@).len() <= 255
        &&& text_is_printable(self.port@)
        &&& self.port@.len() <= 255
        &&& text_is_printable(self.remote_address@)
        &&& self.remote_address@.len() <= 255
    }

    /// Converts the context into the user-information bundle of a request
    /// body; a non-printable or over-long field is rejected as an invalid
    /// context.
    pub fn as_user_information(&self) -> (r: Result<UserInformation, ClientError>)
        ensures
            match r {
                Ok(u) => {
                    &&& self.spec_encodable()
                    &&& u.user@ == self.user@
                    &&& u.port@ == self.port@
                    &&& u.remote_address@ == self.remote_address@
                    &&& u.valid()
                },
                Err(e) => !self.spec_encodable() && e == ClientError::InvalidContext,
            },
    {
        let port = match FieldText::new(self.port.as_str()) {
            Some(t) => t,
            None => {
                return Err(ClientError::InvalidContext);
            },
        };
        let remote_address = match FieldText::new(self.remote_address.as_str()) {
            Some(t) => t,
            None => {
                return Err(ClientError::InvalidContext);
            },
        };
        let user = self.user.clone();
        match UserInformation::new(user, port, remote_address) {
            Some(u) => Ok(u),
            None => Err(ClientError::InvalidContext),
        }
    }

    /// The authentication method to report in authorization and
    /// accounting requests: the configured one, or NotSet.
    pub fn authentication_method(&self) -> (r: AuthenticationMethod)
        ensures
            r == match self.authentication_method {
                Some(m) => m,
                None => AuthenticationMethod::NotSet,
            },
    {
        match self.authentication_method {
            Some(m) => m,
            None => AuthenticationMethod::NotSet,
        }
    }
}

/// A builder for `SessionContext` values, with the library's defaults for
/// the port and remote address.
#[derive(Debug, Clone, PartialEq, Eq, Hash)]
pub struct ContextBuilder {
    pub user: String,
    pub port: String,
    pub remote_address: String,
    pub privilege_level: PrivilegeLevel,
    pub authentication_method: Option<AuthenticationMethod>,
}

impl ContextBuilder {
    /// A builder for the given user with the default port
    /// (`rust_client`), remote address (`tacacs_plus_rs`), and privilege
    /// level 0.
    pub fn new(user: String) -> (r: ContextBuilder)
        ensures
            r.user@ == user@,
            r.port@ == "rust_client"@,
            r.remote_address@ == "tacacs_plus_rs"@,
            r.privilege_level.spec_value() == 0,
            r.privilege_level.valid(),
            r.authentication_method is None,
    {
        ContextBuilder {
            user,
            port: String::from_str("rust_client"),
            remote_address: String::from_str("tacacs_plus_rs"),
            privilege_level: Default::default(),
            authentication_method: None,
        }
    }

    /// The same builder with the port replaced.
    pub fn port(self, port: String) -> (r: ContextBuilder)
        ensures
            r == (ContextBuilder { port, ..self }),
    {
        ContextBuilder { port, ..self }
    }

    /// The same builder with the remote address replaced.
    pub fn remote_address(self, remote_address: String) -> (r: ContextBuilder)
        ensures
            r == (ContextBuilder { remote_address, ..self }),
    {
        ContextBuilder { remote_address, ..self }
    }

    /// The same builder with the privilege level replaced.
    pub fn privilege_level(self, privilege_level: PrivilegeLevel) -> (r: ContextBuilder)
        ensures
            r == (ContextBuilder { privilege_level, ..self }),
    {
        ContextBuilder { privilege_level, ..self }
    }

    /// The same builder with the authentication method set. The method is
    /// ignored by authentication sessions.
    pub fn auth_method(self, method: AuthenticationMethod) -> (r: ContextBuilder)
        ensures
            r == (ContextBuilder { authentication_method: Some(method), ..self }),
    {
        ContextBuilder { authentication_method: Some(method), ..self }
    }

    /// The finished context.
    pub fn build(self) -> (r: SessionContext)
        ensures
            r.user@ == self.user@,
            r.port@ == self.port@,
            r.remote_address@ == self.remote_address@,
            r.privilege_level == self.privilege_level,
            r.authentication_method == self.authentication_method,
    {
        SessionContext {
            user: self.user,
            port: self.port,
            remote_address: self.remote_address,
            privilege_level: self.privilege_level,
            authentication_method: self.authentication_method,
        }
    }
}

/// The header every client request carries: a fresh random session id,
/// the given (odd) sequence number, the single-connection flag always
/// set, and the unencrypted flag set exactly when no secret is
/// configured.
pub fn make_header(secret_configured: bool, sequence_number: u8, minor_version: MinorVersion) -> (r:
    HeaderInfo)
    ensures
        r.sequence_number == sequence_number,
        r.version.major == MajorVersion::RFC8907,
        r.version.minor == minor_version,
        r.flags.valid(),
        r.flags.spec_single_connection(),
        r.flags.spec_unencrypted() == !secret_configured,
{
    let session_id = crate::trusted::random_u32();
    let flags = if secret_configured {
        PacketFlags::single_connection()
    } else {
        PacketFlags::single_connection().with_unencrypted()
    };
    HeaderInfo::new(
        Version::new(MajorVersion::RFC8907, minor_version),
        sequence_number,
        flags,
        session_id,
    )
}

/// The sequence number the server's reply to a client packet must carry:
/// its successor. A packet numbered 255 ends the session, since the
/// sequence number may not wrap.
pub fn expected_reply_sequence_number(request_sequence_number: u8) -> (r: Result<u8, ClientError>)
    ensures
        match r {
            Ok(n) => request_sequence_number < 255 && n == request_sequence_number + 1,
            Err(e) => request_sequence_number == 255 && e == ClientError::SequenceNumberOverflow,
        },
{
    if request_sequence_number < 255 {
        Ok(request_sequence_number + 1)
    } else {
        Err(ClientError::SequenceNumberOverflow)
    }
}

/// The request body of a PAP login: authentication type PAP, service
/// Login, action Login, with the password bytes as the data field.
pub fn pap_login_start_body(context: &SessionContext, password: &str) -> (r: Result<
    Start,
    ClientError,
>)
    ensures
        match r {
            Ok(s) => {
                &&& context.spec_encodable()
                &&& password.spec_bytes().len() <= 255
                &&& s.action == Action::Login
                &&& s.authentication.authentication_type
                    == crate::fields::AuthenticationType::Pap
                &&& s.authentication.service == AuthenticationService::Login
                &&& s.authentication.privilege_level == context.privilege_level
                &&& s.user_information.user@ == context.user@
                &&& s.user_information.port@ == context.port@
                &&& s.user_information.remote_address@ == context.remote_address@
                &&& s.data@ == password.spec_bytes()
                &&& s.spec_valid()
                &&& s.spec_required_minor_version() == Some(MinorVersion::V1)
            },
            Err(ClientError::InvalidContext) => !context.spec_encodable(),
            Err(ClientError::PasswordTooLong) => context.spec_encodable()
                && password.spec_bytes().len() > 255,
            Err(_) => false,
        },
{
    let user_information = match context.as_user_information() {
        Ok(u) => u,
        Err(e) => {
            return Err(e);
        },
    };
    let password_bytes = password.as_bytes_vec();
    if password_bytes.len() > 255 {
        return Err(ClientError::PasswordTooLong);
    }
    let authentication = AuthenticationContext {
        privilege_level: context.privilege_level,
        authentication_type: crate::fields::AuthenticationType::Pap,
        service: AuthenticationService::Login,
    };
    match Start::new(Action::Login, authentication, user_information, Some(password_bytes)) {
        Ok(s) => Ok(s),
        Err(_) => Err(ClientError::InvalidPacketData),
    }
}

/// The composition of a CHAP data field: for some PPP id and 16-byte
/// challenge, the id, then the challenge, then the MD5 response computed
/// over the id, the password bytes and the challenge.
pub open spec fn spec_chap_data(data: Seq<u8>, password_bytes: Seq<u8>) -> bool {
    exists|ppp_id: u8, challenge: Seq<u8>|
        challenge.len() == 16 && data == seq![ppp_id] + challenge + #[trigger] crate::trusted::md5_of(
            seq![ppp_id] + password_bytes + challenge,
        )
}

/// The request body of a CHAP login: authentication type CHAP, service
/// Login, action Login. The data field is the random PPP id, the random
/// 16-byte challenge, and the MD5 response computed over the id, the
/// password and the challenge — 33 bytes in all, whatever the password
/// and however the random values fall.
pub fn chap_login_start_body(context: &SessionContext, password: &str) -> (r: Result<
    Start,
    ClientError,
>)
    ensures
        match r {
            Ok(s) => {
                &&& context.spec_encodable()
                &&& s.action == Action::Login
                &&& s.authentication.authentication_type
                    == crate::fields::AuthenticationType::Chap
                &&& s.authentication.service == AuthenticationService::Login
                &&& s.authentication.privilege_level == context.privilege_level
                &&& s.user_information.user@ == context.user@
                &&& s.user_information.port@ == context.port@
                &&& s.user_information.remote_address@ == context.remote_address@
                &&& s.data@.len() == 33
                &&& spec_chap_data(s.data@, password.spec_bytes())
                &&& s.spec_valid()
                &&& s.spec_required_minor_version() == Some(MinorVersion::V1)
            },
            Err(ClientError::InvalidContext) => !context.spec_encodable(),
            Err(_) => false,
        },
{
    let user_information = match context.as_user_information() {
        Ok(u) => u,
        Err(e) => {
            return Err(e);
        },
    };
    let ppp_id: u8 = crate::trusted::random_u8();
    let challenge: Vec<u8> = crate::trusted::random_challenge();
    let mut hash_input: Vec<u8> = Vec::new();
    hash_input.push(ppp_id);
    crate::wire::push_bytes(&mut hash_input, &password.as_bytes_vec());
    crate::wire::push_bytes(&mut hash_input, &challenge);
    let response = crate::trusted::md5_digest(&hash_input);
    let mut data: Vec<u8> = Vec::new();
    data.push(ppp_id);
    crate::wire::push_bytes(&mut data, &challenge);
    crate::wire::push_bytes(&mut data, &response);
    proof {
        assert(hash_input@ =~= seq![ppp_id] + password.spec_bytes() + challenge@);
        assert(data@ =~= seq![ppp_id] + challenge@ + crate::trusted::md5_of(
            seq![ppp_id] + password.spec_bytes() + challenge@,
        ));
        assert(spec_chap_data(data@, password.spec_bytes()));
    }
    let authentication = AuthenticationContext {
        privilege_level: context.privilege_level,
        authentication_type: crate::fields::AuthenticationType::Chap,
        service: AuthenticationService::Login,
    };
    match Start::new(Action::Login, authentication, user_information, Some(data)) {
        Ok(s) => Ok(s),
        Err(_) => Err(ClientError::InvalidPacketData),
    }
}

/// The request body of an authorization session: the context's
/// authentication method, type NotSet, service Login, and the caller's
/// arguments.
pub fn authorization_request_body(context: &SessionContext, arguments: Vec<Argument>) -> (r: Result<
    authorization::Request,
    ClientError,
>)
    requires
        all_arguments_valid(arguments@.map_values(|a: Argument| a@)),
    ensures
        match r {
            Ok(q) => {
                &&& context.spec_encodable()
                &&& arguments@.len() <= 255
                &&& q.method == (match context.authentication_method {
                    Some(m) => m,
                    None => AuthenticationMethod::NotSet,
                })
                &&& q.authentication_context.authentication_type
                    == crate::fields::AuthenticationType::NotSet
                &&& q.authentication_context.service == AuthenticationService::Login
                &&& q.authentication_context.privilege_level == context.privilege_level
                &&& q.user_information.user@ == context.user@
                &&& q.user_information.port@ == context.port@
                &&& q.user_information.remote_address@ == context.remote_address@
                &&& q.arguments@ == arguments@.map_values(|a: Argument| a@)
                &&& q.spec_valid()
            },
            Err(ClientError::InvalidContext) => !context.spec_encodable(),
            Err(ClientError::TooManyArguments) => context.spec_encodable() && arguments@.len()
                > 255,
            Err(_) => false,
        },
{
    let user_information = match context.as_user_information() {
        Ok(u) => u,
        Err(e) => {
            return Err(e);
        },
    };
    let method = context.authentication_method();
    let bounded = match Arguments::new(arguments) {
        Some(a) => a,
        None => {
            return Err(ClientError::TooManyArguments);
        },
    };
    let authentication_context = AuthenticationContext {
        privilege_level: context.privilege_level,
        authentication_type: crate::fields::AuthenticationType::NotSet,
        service: AuthenticationService::Login,
    };
    Ok(authorization::Request::new(method, authentication_context, user_information, bounded))
}

/// The kind of authentication a login session uses; the two supported
/// kinds are PAP and CHAP.
#[non_exhaustive]
#[derive(Debug, Clone, Copy, PartialEq, Eq, Structural, Hash)]
pub enum AuthenticationType {
    /// The Password Authentication Protocol.
    Pap,
    /// The Challenge-Handshake Authentication Protocol.
    Chap,
}

/// The full packet that opens a login session of the given kind: a PAP
/// or CHAP Start body under a header with sequence number 1 and minor
/// version 1.
pub fn login_start_packet(
    authentication_type: AuthenticationType,
    context: &SessionContext,
    password: &str,
    secret_configured: bool,
) -> (r: Result<Packet<Start>, ClientError>)
    ensures
        match r {
            Ok(p) => {
                &&& p.header.sequence_number == 1
                &&& p.header.version.minor == MinorVersion::V1
                &&& p.header.flags.valid()
                &&& p.header.flags.spec_single_connection()
                &&& p.header.flags.spec_unencrypted() == !secret_configured
                &&& p.body.spec_valid()
                &&& p.body.action == Action::Login
                &&& p.body.authentication.service == AuthenticationService::Login
                &&& p.body.authentication.privilege_level == context.privilege_level
                &&& p.body.user_information.user@ == context.user@
                &&& p.body.user_information.port@ == context.port@
                &&& p.body.user_information.remote_address@ == context.remote_address@
                &&& (match authentication_type {
                    AuthenticationType::Pap => p.body.authentication.authentication_type
                        == crate::fields::AuthenticationType::Pap && p.body.data@
                        == password.spec_bytes(),
                    AuthenticationType::Chap => p.body.authentication.authentication_type
                        == crate::fields::AuthenticationType::Chap && p.body.data@.len() == 33
                        && spec_chap_data(p.body.data@, password.spec_bytes()),
                })
            },
            Err(ClientError::InvalidContext) => !context.spec_encodable(),
            Err(ClientError::PasswordTooLong) => context.spec_encodable()
                && password.spec_bytes().len() > 255 && authentication_type
                == AuthenticationType::Pap,
            Err(_) => false,
        },
{
    match authentication_type {
        AuthenticationType::Pap => pap_login_start_packet(context, password, secret_configured),
        AuthenticationType::Chap => chap_login_start_packet(context, password, secret_configured),
    }
}

/// The full packet of a PAP login session: the PAP Start body under a
/// header with sequence number 1 (client packets are odd-numbered), a
/// fresh random session id, and minor version 1 as the body demands.
pub fn pap_login_start_packet(
    context: &SessionContext,
    password: &str,
    secret_configured: bool,
) -> (r: Result<Packet<Start>, ClientError>)
    ensures
        match r {
            Ok(p) => {
                &&& p.header.sequence_number == 1
                &&& p.header.version.minor == MinorVersion::V1
                &&& p.header.flags.valid()
                &&& p.header.flags.spec_single_connection()
                &&& p.header.flags.spec_unencrypted() == !secret_configured
                &&& p.body.spec_valid()
                &&& p.body.action == Action::Login
                &&& p.body.authentication.authentication_type
                    == crate::fields::AuthenticationType::Pap
                &&& p.body.authentication.service == AuthenticationService::Login
                &&& p.body.authentication.privilege_level == context.privilege_level
                &&& p.body.data@ == password.spec_bytes()
                &&& p.body.user_information.user@ == context.user@
                &&& p.body.user_information.port@ == context.port@
                &&& p.body.user_information.remote_address@ == context.remote_address@
            },
            Err(ClientError::InvalidContext) => !context.spec_encodable(),
            Err(ClientError::PasswordTooLong) => context.spec_encodable()
                && password.spec_bytes().len() > 255,
            Err(_) => false,
        },
{
    let body = match pap_login_start_body(context, password) {
        Ok(b) => b,
        Err(e) => {
            return Err(e);
        },
    };
    let header = make_header(secret_configured, 1, MinorVersion::V1);
    Ok(Packet::new(header, body))
}

/// The full packet of a CHAP login session: the CHAP Start body under a
/// header with sequence number 1, a fresh random session id, and minor
/// version 1 as the body demands. The data field is always 33 bytes.
pub fn chap_login_start_packet(
    context: &SessionContext,
    password: &str,
    secret_configured: bool,
) -> (r: Result<Packet<Start>, ClientError>)
    ensures
        match r {
            Ok(p) => {
                &&& p.header.sequence_number == 1
                &&& p.header.version.minor == MinorVersion::V1
                &&& p.header.flags.valid()
                &&& p.header.flags.spec_single_connection()
                &&& p.header.flags.spec_unencrypted() == !secret_configured
                &&& p.body.spec_valid()
                &&& p.body.action == Action::Login
                &&& p.body.authentication.authentication_type
                    == crate::fields::AuthenticationType::Chap
                &&& p.body.authentication.service == AuthenticationService::Login
                &&& p.body.authentication.privilege_level == context.privilege_level
                &&& p.body.data@.len() == 33
                &&& spec_chap_data(p.body.data@, password.spec_bytes())
                &&& p.body.user_information.user@ == context.user@
                &&& p.body.user_information.port@ == context.port@
                &&& p.body.user_information.remote_address@ == context.remote_address@
            },
            Err(ClientError::InvalidContext) => !context.spec_encodable(),
            Err(_) => false,
        },
{
    let body = match chap_login_start_body(context, password) {
        Ok(b) => b,
        Err(e) => {
            return Err(e);
        },
    };
    let header = make_header(secret_configured, 1, MinorVersion::V1);
    Ok(Packet::new(header, body))
}

/// The full packet of an authorization session: the request body under a
/// header with sequence number 1, a fresh random session id, and the
/// default minor version.
pub fn authorization_request_packet(
    context: &SessionContext,
    arguments: Vec<Argument>,
    secret_configured: bool,
) -> (r: Result<Packet<authorization::Request>, ClientError>)
    requires
        all_arguments_valid(arguments@.map_values(|a: Argument| a@)),
    ensures
        match r {
            Ok(p) => {
                &&& p.header.sequence_number == 1
                &&& p.header.version.minor == MinorVersion::Default
                &&& p.header.flags.valid()
                &&& p.header.flags.spec_single_connection()
                &&& p.header.flags.spec_unencrypted() == !secret_configured
                &&& p.body.spec_valid()
                &&& p.body.method == (match context.authentication_method {
                    Some(m) => m,
                    None => AuthenticationMethod::NotSet,
                })
                &&& p.body.authentication_context.authentication_type
                    == crate::fields::AuthenticationType::NotSet
                &&& p.body.authentication_context.service == AuthenticationService::Login
                &&& p.body.authentication_context.privilege_level == context.privilege_level
                &&& p.body.arguments@ == arguments@.map_values(|a: Argument| a@)
                &&& p.body.user_information.user@ == context.user@
                &&& p.body.user_information.port@ == context.port@
                &&& p.body.user_information.remote_address@ == context.remote_address@
            },
            Err(ClientError::InvalidContext) => !context.spec_encodable(),
            Err(ClientError::TooManyArguments) => context.spec_encodable() && arguments@.len()
                > 255,
            Err(_) => false,
        },
{
    let body = match authorization_request_body(context, arguments) {
        Ok(b) => b,
        Err(e) => {
            return Err(e);
        },
    };
    let header = make_header(secret_configured, 1, MinorVersion::Default);
    Ok(Packet::new(header, body))
}

/// The full packet of one accounting record: the request body with the
/// given flags under a header with sequence number 1, a fresh random
/// session id, and the default minor version.
pub fn accounting_request_packet(
    context: &SessionContext,
    record_flags: accounting::Flags,
    arguments: Vec<Argument>,
    secret_configured: bool,
) -> (r: Result<Packet<accounting::Request>, ClientError>)
    requires
        all_arguments_valid(arguments@.map_values(|a: Argument| a@)),
    ensures
        match r {
            Ok(p) => {
                &&& p.header.sequence_number == 1
                &&& p.header.version.minor == MinorVersion::Default
                &&& p.header.flags.valid()
                &&& p.header.flags.spec_single_connection()
                &&& p.header.flags.spec_unencrypted() == !secret_configured
                &&& p.body.spec_valid()
                &&& p.body.flags == record_flags
                &&& p.body.authentication_method == (match context.authentication_method {
                    Some(m) => m,
                    None => AuthenticationMethod::NotSet,
                })
                &&& p.body.authentication.authentication_type
                    == crate::fields::AuthenticationType::NotSet
                &&& p.body.authentication.service == AuthenticationService::Login
                &&& p.body.authentication.privilege_level == context.privilege_level
                &&& p.body.arguments@ == arguments@.map_values(|a: Argument| a@)
                &&& p.body.user_information.user@ == context.user@
                &&& p.body.user_information.port@ == context.port@
                &&& p.body.user_information.remote_address@ == context.remote_address@
            },
            Err(ClientError::InvalidContext) => !context.spec_encodable(),
            Err(ClientError::TooManyArguments) => context.spec_encodable() && arguments@.len()
                > 255,
            Err(_) => false,
        },
{
    let user_information = match context.as_user_information() {
        Ok(u) => u,
        Err(e) => {
            return Err(e);
        },
    };
    let method = context.authentication_method();
    let bounded = match Arguments::new(arguments) {
        Some(a) => a,
        None => {
            return Err(ClientError::TooManyArguments);
        },
    };
    let authentication_context = AuthenticationContext {
        privilege_level: context.privilege_level,
        authentication_type: crate::fields::AuthenticationType::NotSet,
        service: AuthenticationService::Login,
    };
    let body = accounting::Request::new(
        record_flags,
        method,
        authentication_context,
        user_information,
        bounded,
    );
    let header = make_header(secret_configured, 1, MinorVersion::Default);
    Ok(Packet::new(header, body))
}

/// The single-connection bookkeeping of one client connection: whether a
/// session has completed on it, and whether single-connection mode was
/// established by the first reply of its first session.
#[derive(Debug, PartialEq, Eq, Structural, Clone, Copy, Hash)]
pub struct ConnectionState {
    /// Whether a session has been completed on the connection.
    pub first_session_completed: bool,
    /// Whether both peers agreed to single-connection mode.
    pub single_connection_established: bool,
}

impl ConnectionState {
    /// The state of a fresh connection.
    pub fn new() -> (r: ConnectionState)
        ensures
            r.first_session_completed == false,
            r.single_connection_established == false,
    {
        ConnectionState { first_session_completed: false, single_connection_established: false }
    }

    /// Notes the single-connection flag of a reply header: only the reply
    /// with sequence number 2 of the first session on the connection may
    /// establish single-connection mode; afterwards the flag is ignored,
    /// as RFC 8907 section 4.3 demands.
    pub fn set_internal_single_connect_status(&mut self, header: &HeaderInfo)
        ensures
            final(self).first_session_completed == old(self).first_session_completed,
            final(self).single_connection_established == (old(self).single_connection_established
                || (!old(self).first_session_completed && header.sequence_number == 2
                && header.flags.spec_single_connection())),
    {
        if !self.first_session_completed && header.sequence_number() == 2
            && header.flags().single_connection_set() {
            self.single_connection_established = true;
        }
    }

    /// Decides what happens when a session ends: the connection is closed
    /// (and the state reset) unless single-connection mode stands and the
    /// session did not end in a server error; a kept connection is marked
    /// as having completed its first session.
    pub fn post_session_cleanup(&mut self, status_is_error: bool) -> (close_connection: bool)
        ensures
            close_connection == (!old(self).single_connection_established || status_is_error),
            close_connection ==> *final(self) == (ConnectionState {
                first_session_completed: false,
                single_connection_established: false,
            }),
            !close_connection ==> *final(self) == (ConnectionState {
                first_session_completed: true,
                single_connection_established: old(self).single_connection_established,
            }),
    {
        if !self.single_connection_established || status_is_error {
            self.single_connection_established = false;
            self.first_session_completed = false;
            true
        } else {
            self.first_session_completed = true;
            false
        }
    }
}

/// Checks and parses a reply packet read off the wire: the packet must
/// deserialize under the configured secret, and its sequence number must
/// be the expected one; any other buffer is rejected with the exact
/// error.
pub fn parse_received_packet<B: PacketBody + DeserializeBody>(
    secret_key: Option<&Vec<u8>>,
    buffer: &Vec<u8>,
    expected_sequence_number: u8,
) -> (r: Result<Packet<B>, ClientError>)
    requires
        buffer@.len() >= 12,
    ensures
        ({
            let parsed = match secret_key {
                Some(key) => crate::packet::spec_parse_packet_obfuscated::<B>(key@, buffer@),
                None => crate::packet::spec_parse_packet_cleartext::<B>(buffer@),
            };
            match r {
                Ok(p) => {
                    &&& parsed is Ok
                    &&& p.body@ == parsed->Ok_0.1
                    &&& p.header == parsed->Ok_0.0
                    &&& p.header.sequence_number == expected_sequence_number
                },
                Err(ClientError::InvalidPacketReceived(e)) => parsed == Err::<
                    (HeaderInfo, B::V),
                    DeserializeError,
                >(e),
                Err(ClientError::SequenceNumberMismatch { expected, actual }) => {
                    &&& parsed is Ok
                    &&& expected == expected_sequence_number
                    &&& actual == parsed->Ok_0.0.sequence_number
                    &&& actual != expected_sequence_number
                },
                Err(_) => false,
            }
        }),
{
    let packet: Packet<B> = match secret_key {
        Some(key) => {
            match Packet::<B>::deserialize(key, buffer) {
                Ok(p) => p,
                Err(e) => {
                    return Err(ClientError::InvalidPacketReceived(e));
                },
            }
        },
        None => {
            match Packet::<B>::deserialize_unobfuscated(buffer) {
                Ok(p) => p,
                Err(e) => {
                    return Err(ClientError::InvalidPacketReceived(e));
                },
            }
        },
    };
    let actual = packet.header().sequence_number();
    if actual == expected_sequence_number {
        Ok(packet)
    } else {
        Err(ClientError::SequenceNumberMismatch { expected: expected_sequence_number, actual })
    }
}

/// The body length a packet header announces, read from its last four
/// bytes; a caller uses it to read the rest of the packet.
pub fn body_length_from_header(header_bytes: &Vec<u8>) -> (r: u32)
    requires
        header_bytes@.len() >= 12,
    ensures
        r == crate::wire::u32_of_be(
            header_bytes@[8],
            header_bytes@[9],
            header_bytes@[10],
            header_bytes@[11],
        ),
{
    crate::wire::read_u32_be(header_bytes, 8)
}

/// Maps a parsed authentication reply to the public response: Pass is a
/// success; Fail, Restart and Follow are failures; every other status is
/// the authentication error with the reply's message and data.
pub fn authentication_response(reply: &authentication::Reply) -> (r: Result<
    AuthenticationResponse,
    ClientError,
>)
    requires
        text_is_printable(reply@.server_message),
    ensures
        match ResponseStatus::spec_of_authentication(reply@.status) {
            Ok(status) => r matches Ok(resp) && resp.status == status && resp.user_message@
                == reply@.server_message && resp.data@ == reply@.data,
            Err(_) => r matches Err(e) && e matches ClientError::AuthenticationError {
                status,
                data,
                user_message,
            } && status == reply@.status && data@ == reply@.data && user_message@
                == reply@.server_message,
        },
{
    let user_message = reply.server_message().to_string_value();
    let data = crate::wire::subvec(reply.data(), 0, reply.data().len());
    match ResponseStatus::of_authentication(reply.status()) {
        Ok(status) => Ok(AuthenticationResponse { status, user_message, data }),
        Err(BadAuthenticationStatus(status)) => Err(
            ClientError::AuthenticationError { status, data, user_message },
        ),
    }
}

/// Maps a parsed authorization reply to the public response: PassAdd and
/// PassReplace succeed and carry the merged argument set — appended for
/// PassAdd, replacing for PassReplace — Fail and Follow are failures
/// with the arguments merged the appending way, and every other status
/// is the authorization error.
pub fn authorization_response(sent_arguments: Vec<Argument>, reply: &authorization::Reply) -> (r:
    Result<AuthorizationResponse, ClientError>)
    requires
        text_is_printable(reply@.server_message),
        text_is_printable(reply@.data),
    ensures
        match ResponseStatus::spec_of_authorization(reply@.status) {
            Ok(status) => r matches Ok(resp) && resp.status == status && resp.user_message@
                == reply@.server_message && resp.admin_message@ == reply@.data
                && resp.arguments@.map_values(|a: Argument| a@) == spec_merged_arguments(
                reply@.status == authorization::Status::PassReplace,
                sent_arguments@.map_values(|a: Argument| a@),
                reply@.arguments,
            ),
            Err(_) => r matches Err(e) && e matches ClientError::AuthorizationError {
                status,
                user_message,
                admin_message,
            } && status == reply@.status && user_message@ == reply@.server_message
                && admin_message@ == reply@.data,
        },
{
    let user_message = reply.server_message().to_string_value();
    let admin_message = reply.data().to_string_value();
    let status_raw = reply.status();
    match ResponseStatus::of_authorization(status_raw) {
        Ok(status) => {
            let replacing = match status_raw {
                authorization::Status::PassReplace => true,
                _ => false,
            };
            let arguments = merge_authorization_arguments(
                replacing,
                sent_arguments,
                reply.iter_arguments(),
            );
            Ok(AuthorizationResponse { status, arguments, user_message, admin_message })
        },
        Err(BadAuthorizationStatus(status)) => Err(
            ClientError::AuthorizationError { status, user_message, admin_message },
        ),
    }
}

/// Maps a parsed accounting reply to the public response: only Success
/// succeeds; every other status is the accounting error with the reply's
/// messages.
pub fn accounting_response(reply: &accounting::Reply) -> (r: Result<
    AccountingResponse,
    ClientError,
>)
    requires
        text_is_printable(reply@.server_message),
        text_is_printable(reply@.data),
    ensures
        match r {
            Ok(resp) => reply@.status == accounting::Status::Success && resp.user_message@
                == reply@.server_message && resp.admin_message@ == reply@.data,
            Err(e) => reply@.status != accounting::Status::Success && (e matches
                ClientError::AccountingError {
                status,
                user_message,
                admin_message,
            } && status == reply@.status && user_message@ == reply@.server_message
                && admin_message@ == reply@.data),
        },
{
    let user_message = reply.server_message().to_string_value();
    let admin_message = reply.data().to_string_value();
    match reply.status() {
        accounting::Status::Success => Ok(AccountingResponse { user_message, admin_message }),
        status => Err(ClientError::AccountingError { status, user_message, admin_message }),
    }
}

/// The position of the first argument named `name` at or after `i`.
pub open spec fn spec_find_name(s: Seq<ArgumentView>, name: Seq<char>, i: int) -> Option<int>
    decreases s.len() - i,
{
    if i < 0 || i >= s.len() {
        None
    } else if s[i].name == name {
        Some(i)
    } else {
        spec_find_name(s, name, i + 1)
    }
}

/// What the first-match search yields: the first position with the name,
/// or `None` when no argument has it.
pub proof fn lemma_find_name_correct(s: Seq<ArgumentView>, name: Seq<char>, i: int)
    requires
        0 <= i <= s.len(),
    ensures
        match spec_find_name(s, name, i) {
            Some(j) => i <= j < s.len() && s[j].name == name && (forall|k: int|
                i <= k < j ==> s[k].name != name),
            None => forall|k: int| i <= k < s.len() ==> s[k].name != name,
        },
    decreases s.len() - i,
{
    if i < s.len() && s[i].name != name {
        lemma_find_name_correct(s, name, i + 1);
    }
}

/// One step of a replacing merge: overwrite the value of the first
/// identically named entry, or append the received argument.
pub open spec fn spec_merge_one(acc: Seq<ArgumentView>, received: ArgumentView) -> Seq<
    ArgumentView,
> {
    match spec_find_name(acc, received.name, 0) {
        Some(j) => acc.update(
            j,
            ArgumentView { name: acc[j].name, value: received.value, mandatory: acc[j].mandatory },
        ),
        None => acc.push(received),
    }
}

/// A replacing merge: each received argument in turn overwrites the value
/// of an identically named entry, or is appended.
pub open spec fn spec_merge_replace(acc: Seq<ArgumentView>, received: Seq<ArgumentView>) -> Seq<
    ArgumentView,
>
    decreases received.len(),
{
    if received.len() == 0 {
        acc
    } else {
        spec_merge_replace(spec_merge_one(acc, received[0]), received.drop_first())
    }
}

/// The merged argument set a successful authorization returns: the sent
/// and received sets concatenated when the server adds, or the replacing
/// merge when the server replaces.
pub open spec fn spec_merged_arguments(
    replacing: bool,
    sent: Seq<ArgumentView>,
    received: Seq<ArgumentView>,
) -> Seq<ArgumentView> {
    if replacing {
        spec_merge_replace(sent, received)
    } else {
        sent + received
    }
}

/// Merges the sent and received arguments of a successful authorization
/// session, as `spec_merged_arguments` describes.
pub fn merge_authorization_arguments(
    replacing: bool,
    sent_arguments: Vec<Argument>,
    received_arguments: &Vec<Argument>,
) -> (r: Vec<Argument>)
    ensures
        r@.map_values(|a: Argument| a@) == spec_merged_arguments(
            replacing,
            sent_arguments@.map_values(|a: Argument| a@),
            received_arguments@.map_values(|a: Argument| a@),
        ),
{
    let ghost sent_views = sent_arguments@.map_values(|a: Argument| a@);
    let ghost received_views = received_arguments@.map_values(|a: Argument| a@);
    let mut out = sent_arguments;
    let n: usize = received_arguments.len();
    if !replacing {
        let mut i: usize = 0;
        while i < n
            invariant
                n == received_views.len(),
                i <= n,
                received_views == received_arguments@.map_values(|a: Argument| a@),
                out@.len() == sent_views.len() + i,
                forall|k: int| 0 <= k < sent_views.len() ==> #[trigger] out@[k]@ == sent_views[k],
                forall|k: int|
                    0 <= k < i ==> #[trigger] out@[sent_views.len() + k]@ == received_views[k],
            decreases n - i,
        {
            out.push(received_arguments[i].duplicate());
            i += 1;
        }
        proof {
            let f = |a: Argument| a@;
            assert forall|k: int| 0 <= k < out@.len() implies #[trigger] out@.map_values(f)[k]
                == (sent_views + received_views)[k] by {
                assert(out@.map_values(f)[k] == out@[k]@);
                if k < sent_views.len() {
                    assert(out@[k]@ == sent_views[k]);
                } else {
                    assert(out@[sent_views.len() + (k - sent_views.len())]@ == received_views[k
                        - sent_views.len()]);
                }
            }
            assert(out@.map_values(f) =~= sent_views + received_views);
        }
        out
    } else {
        let mut i: usize = 0;
        while i < n
            invariant
                n == received_views.len(),
                i <= n,
                received_views == received_arguments@.map_values(|a: Argument| a@),
                out@.map_values(|a: Argument| a@) == spec_merge_replace(
                    sent_views,
                    received_views.take(i as int),
                ),
            decreases n - i,
        {
            let ghost acc = out@.map_values(|a: Argument| a@);
            let ghost rv = received_views[i as int];
            let received = &received_arguments[i];
            proof {
                assert(rv == received@);
            }
            let m: usize = out.len();
            let mut j: usize = 0;
            let mut found = m;
            while j < m
                invariant_except_break
                    found == m,
                    spec_find_name(acc, rv.name, 0) == spec_find_name(acc, rv.name, j as int),
                invariant
                    m == out@.len(),
                    j <= m,
                    acc == out@.map_values(|a: Argument| a@),
                    rv == received@,
                ensures
                    found <= m,
                    found == m ==> j == m && spec_find_name(acc, rv.name, 0) is None,
                    found < m ==> spec_find_name(acc, rv.name, 0) == Some(found as int)
                        && acc[found as int].name == rv.name,
                decreases m - j,
            {
                if out[j].name() == received.name() {
                    proof {
                        assert(acc[j as int].name == rv.name);
                        assert(spec_find_name(acc, rv.name, j as int) == Some(j as int));
                    }
                    found = j;
                    break ;
                }
                proof {
                    assert(acc[j as int].name != rv.name);
                }
                j += 1;
            }
            let ghost prev = out@;
            if found < m {
                let replacement = Argument {
                    name: out[found].name.duplicate(),
                    value: received.value.duplicate(),
                    mandatory: out[found].mandatory,
                };
                out[found] = replacement;
                proof {
                    let f = |a: Argument| a@;
                    assert(out@ == prev.update(found as int, replacement));
                    let target = spec_merge_one(acc, rv);
                    assert(target == acc.update(
                        found as int,
                        ArgumentView {
                            name: acc[found as int].name,
                            value: rv.value,
                            mandatory: acc[found as int].mandatory,
                        },
                    ));
                    assert forall|k: int| 0 <= k < out@.len() implies #[trigger] out@.map_values(
                        f,
                    )[k] == target[k] by {
                        assert(out@.map_values(f)[k] == out@[k]@);
                        if k == found {
                            assert(out@[k] == replacement);
                            assert(prev.map_values(f)[found as int] == prev[found as int]@);
                        } else {
                            assert(out@[k] == prev[k]);
                            assert(prev.map_values(f)[k] == prev[k]@);
                        }
                    }
                    assert(out@.map_values(f) =~= target);
                }
            } else {
                out.push(received.duplicate());
                proof {
                    let f = |a: Argument| a@;
                    let target = spec_merge_one(acc, rv);
                    assert(target == acc.push(rv));
                    assert forall|k: int| 0 <= k < out@.len() implies #[trigger] out@.map_values(
                        f,
                    )[k] == target[k] by {
                        assert(out@.map_values(f)[k] == out@[k]@);
                        if k < prev.len() {
                            assert(out@[k] == prev[k]);
                            assert(prev.map_values(f)[k] == prev[k]@);
                        }
                    }
                    assert(out@.map_values(f) =~= target);
                }
            }
            i += 1;
            proof {
                assert(received_views.take(i as int) =~= received_views.take(i - 1).push(rv));
                lemma_merge_replace_push(sent_views, received_views.take(i - 1), rv);
            }
        }
        proof {
            assert(received_views.take(n as int) =~= received_views);
        }
        out
    }
}

/// Merging one more received argument merges it into the result.
pub proof fn lemma_merge_replace_push(
    acc: Seq<ArgumentView>,
    received: Seq<ArgumentView>,
    v: ArgumentView,
)
    ensures
        spec_merge_replace(acc, received.push(v)) == spec_merge_one(
            spec_merge_replace(acc, received),
            v,
        ),
    decreases received.len(),
{
    if received.len() == 0 {
        assert(received.push(v)[0] == v);
        assert(received.push(v).drop_first() =~= Seq::<ArgumentView>::empty());
        assert(spec_merge_replace(spec_merge_one(acc, v), Seq::<ArgumentView>::empty())
            == spec_merge_one(acc, v));
        assert(spec_merge_replace(acc, received) == acc);
    } else {
        assert(received.push(v)[0] == received[0]);
        assert(received.push(v).drop_first() =~= received.drop_first().push(v));
        lemma_merge_replace_push(spec_merge_one(acc, received[0]), received.drop_first(), v);
        assert(spec_merge_replace(acc, received) == spec_merge_replace(
            spec_merge_one(acc, received[0]),
            received.drop_first(),
        ));
    }
}


/// No two arguments of the sequence share a name.
pub open spec fn names_unique(s: Seq<ArgumentView>) -> bool {
    forall|i: int, j: int| 0 <= i < j < s.len() ==> s[i].name != s[j].name
}

/// Whether some argument of the sequence carries the given name.
pub open spec fn has_name(s: Seq<ArgumentView>, name: Seq<char>) -> bool {
    exists|i: int| 0 <= i < s.len() && s[i].name == name
}

/// The authorization replace law, for argument sets without duplicate
/// names (RFC 8907 gives duplicates no meaning): after a replacing
/// merge, every received name is present with the received value — the
/// value of an identically named sent entry is overwritten, any other
/// received entry is appended — the sent entries keep their positions,
/// names and mandatory bits, and a sent entry whose name the server did
/// not mention is untouched.
pub proof fn lemma_authorization_replace(sent: Seq<ArgumentView>, received: Seq<ArgumentView>)
    requires
        names_unique(sent),
        names_unique(received),
    ensures
        spec_merged_arguments(true, sent, received).len() >= sent.len(),
        forall|j: int|
            0 <= j < sent.len() ==> #[trigger] spec_merged_arguments(true, sent, received)[j].name
                == sent[j].name && spec_merged_arguments(true, sent, received)[j].mandatory
                == sent[j].mandatory,
        forall|j: int|
            0 <= j < sent.len() && !has_name(received, sent[j].name)
                ==> #[trigger] spec_merged_arguments(true, sent, received)[j] == sent[j],
        forall|i: int|
            0 <= i < received.len() ==> exists|j: int|
                0 <= j < spec_merged_arguments(true, sent, received).len()
                    && #[trigger] spec_merged_arguments(true, sent, received)[j].name == (
                #[trigger] received[i]).name && spec_merged_arguments(true, sent, received)[j].value
                    == received[i].value,
{
    lemma_merge_replace_induction(sent, received);
    let m = spec_merged_arguments(true, sent, received);
    assert(m == spec_merge_replace(sent, received));
    assert forall|i: int| 0 <= i < received.len() implies exists|j: int|
        0 <= j < m.len() && #[trigger] m[j].name == (#[trigger] received[i]).name && m[j].value
            == received[i].value by {
        let j = choose|j: int|
            0 <= j < spec_merge_replace(sent, received).len()
                && #[trigger] spec_merge_replace(sent, received)[j].name == received[i].name
                && spec_merge_replace(sent, received)[j].value == received[i].value;
        assert(0 <= j < m.len() && m[j].name == received[i].name && m[j].value
            == received[i].value);
    }
}

proof fn lemma_merge_replace_induction(acc: Seq<ArgumentView>, received: Seq<ArgumentView>)
    requires
        names_unique(acc),
        names_unique(received),
    ensures
        spec_merge_replace(acc, received).len() >= acc.len(),
        names_unique(spec_merge_replace(acc, received)),
        forall|j: int|
            0 <= j < acc.len() ==> #[trigger] spec_merge_replace(acc, received)[j].name
                == acc[j].name && spec_merge_replace(acc, received)[j].mandatory
                == acc[j].mandatory,
        forall|j: int|
            0 <= j < acc.len() && !has_name(received, acc[j].name)
                ==> #[trigger] spec_merge_replace(acc, received)[j] == acc[j],
        forall|i: int|
            0 <= i < received.len() ==> exists|j: int|
                0 <= j < spec_merge_replace(acc, received).len()
                    && #[trigger] spec_merge_replace(acc, received)[j].name == (
                #[trigger] received[i]).name && spec_merge_replace(acc, received)[j].value
                    == received[i].value,
    decreases received.len(),
{
    let m = spec_merge_replace(acc, received);
    if received.len() == 0 {
        assert(m == acc);
    } else {
        let r0 = received[0];
        let acc1 = spec_merge_one(acc, r0);
        let rest = received.drop_first();
        assert(m == spec_merge_replace(acc1, rest));
        assert(names_unique(rest)) by {
            assert forall|i: int, j: int| 0 <= i < j < rest.len() implies rest[i].name
                != rest[j].name by {
                assert(rest[i] == received[i + 1]);
                assert(rest[j] == received[j + 1]);
            }
        }
        assert forall|i: int| 0 <= i < rest.len() implies #[trigger] rest[i].name != r0.name by {
            assert(rest[i] == received[i + 1]);
        }
        lemma_find_name_correct(acc, r0.name, 0);
        let replaced_index: int = match spec_find_name(acc, r0.name, 0) {
            Some(j0) => j0,
            None => acc.len() as int,
        };
        // In either case acc1 keeps every old entry's name and mandatory
        // bit, has r0's name and value at replaced_index, and stays
        // duplicate-free.
        assert(acc1.len() >= acc.len());
        assert(replaced_index < acc1.len());
        assert(acc1[replaced_index].name == r0.name);
        assert(acc1[replaced_index].value == r0.value);
        assert forall|j: int| 0 <= j < acc.len() implies #[trigger] acc1[j].name == acc[j].name
            && acc1[j].mandatory == acc[j].mandatory by {}
        assert forall|j: int| 0 <= j < acc.len() && j != replaced_index implies #[trigger] acc1[j]
            == acc[j] by {}
        assert(names_unique(acc1)) by {
            match spec_find_name(acc, r0.name, 0) {
                Some(j0) => {
                    assert forall|i: int, j: int| 0 <= i < j < acc1.len() implies acc1[i].name
                        != acc1[j].name by {
                        assert(acc1[i].name == acc[i].name);
                        assert(acc1[j].name == acc[j].name);
                    }
                },
                None => {
                    assert forall|i: int, j: int| 0 <= i < j < acc1.len() implies acc1[i].name
                        != acc1[j].name by {
                        if j < acc.len() {
                        } else {
                            assert(acc1[j] == r0);
                            assert(acc[i].name != r0.name);
                        }
                    }
                },
            }
        }
        lemma_merge_replace_induction(acc1, rest);
        // The entry that now carries r0's value is untouched by the rest
        // of the merge, since no later received argument shares its name.
        assert(!has_name(rest, acc1[replaced_index].name)) by {
            if has_name(rest, r0.name) {
                let i = choose|i: int| 0 <= i < rest.len() && rest[i].name == r0.name;
            }
        }
        assert(m[replaced_index] == acc1[replaced_index]);
        // Prefix names and mandatory bits survive.
        assert forall|j: int| 0 <= j < acc.len() implies #[trigger] m[j].name == acc[j].name
            && m[j].mandatory == acc[j].mandatory by {
            assert(m[j].name == acc1[j].name);
        }
        // Entries whose names the server never mentioned are untouched.
        assert forall|j: int| 0 <= j < acc.len() && !has_name(received, acc[j].name)
            implies #[trigger] m[j] == acc[j] by {
            assert(acc[j].name != r0.name);
            assert(j != replaced_index || acc1[replaced_index].name != r0.name);
            assert(acc1[j] == acc[j]);
            assert(!has_name(rest, acc1[j].name)) by {
                if has_name(rest, acc1[j].name) {
                    let i = choose|i: int| 0 <= i < rest.len() && rest[i].name == acc1[j].name;
                    assert(rest[i] == received[i + 1]);
                    assert(has_name(received, acc[j].name));
                }
            }
            assert(m[j] == acc1[j]);
        }
        // Every received name carries the received value in the result.
        assert forall|i: int| 0 <= i < received.len() implies exists|j: int|
            0 <= j < m.len() && #[trigger] m[j].name == (#[trigger] received[i]).name
                && m[j].value == received[i].value by {
            if i == 0 {
                assert(m[replaced_index].name == r0.name && m[replaced_index].value == r0.value);
                assert(0 <= replaced_index < m.len());
            } else {
                assert(received[i] == rest[i - 1]);
                let j = choose|j: int|
                    0 <= j < m.len() && #[trigger] m[j].name == rest[i - 1].name && m[j].value
                        == rest[i - 1].value;
            }
        }
    }
}

} // verus!
