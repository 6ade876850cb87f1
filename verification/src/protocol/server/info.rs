use vstd::prelude::*;
use vstd::slice::slice_subrange;
use bytes::Bytes;
use serde_json::Value;
use crate::buf::bytes_content;
use crate::json::{
    bool_piece, json_object, json_string, list_piece, list_quotable, member_views, number_member,
    number_piece, optional_bool, optional_number, optional_text_list, read_object,
    read_optional_bool, read_optional_number, read_optional_text_list, read_required_number,
    read_required_text, required_number, required_text, structure_error, text_member, text_views,
    write_bool_piece, write_list_piece, write_number_member, write_number_piece,
    write_text_member, CLOSE_BRACE, KEY_AUTH_REQUIRED, KEY_CLIENT_ID, KEY_CONNECT_URLS, KEY_GO,
    KEY_HOST, KEY_MAX_PAYLOAD, KEY_PORT, KEY_PROTO, KEY_SERVER_ID, KEY_TLS_REQUIRED,
    KEY_TLS_VERIFY, KEY_VERSION, OPEN_BRACE,
};
use crate::protocol::builder::{missing, missing_words};
use crate::protocol::Command;
use crate::protocol::error::{CommandError, JsonFault};
use crate::protocol::wire::{
    crlf, ends_with_crlf, has_line_end, push_field, push_line_end, start_line, tabbed, CMD_INFO,
};
use crate::text::{bytes_eq, push_byte};

verus! {

/// As soon as the server accepts a connection from the client, it will send
/// information about itself and the configuration and security requirements
/// that are necessary for the client to successfully authenticate with the
/// server and exchange messages.
///
/// When using the updated client protocol (see CONNECT), INFO messages can
/// be sent anytime by the server. This means clients with that protocol
/// level need to be able to asynchronously handle INFO messages.
#[derive(Debug, Clone, PartialEq)]
pub struct ServerInfo {
    /// The unique identifier of the NATS server
    pub server_id: String,
    /// The version of the NATS server
    pub version: String,
    /// The version of golang the NATS server was built with
    pub go: String,
    /// The IP address used to start the NATS server, by default this will be 0.0.0.0 and can be
    /// configured with `-client_advertise host:port`
    pub host: String,
    /// The port number the NATS server is configured to listen on
    pub port: u32,
    /// Maximum payload size, in bytes, that the server will accept from the client.
    pub max_payload: u32,
    /// An integer indicating the protocol version of the server. The server version 1.2.0 sets this
    /// to 1 to indicate that it supports the "Echo" feature.
    pub proto: Option<u8>,
    /// An optional unsigned integer (64 bits) representing the internal client identifier in the
    /// server. This can be used to filter client connections in monitoring, correlate with error
    /// logs, etc.
    pub client_id: Option<u64>,
    /// If this is set, then the client should try to authenticate upon connect.
    pub auth_required: Option<bool>,
    /// If this is set, then the client must perform the TLS/1.2 handshake. Note, this used to be
    /// ssl_required and has been updated along with the protocol from SSL to TLS.
    pub tls_required: Option<bool>,
    /// If this is set, the client must provide a valid certificate during the TLS handshake.
    pub tls_verify: Option<bool>,
    /// An optional list of server urls that a client can connect to.
    pub connect_urls: Option<Vec<String>>,
}

/// A server's INFO as plain values.
pub struct ServerInfoView {
    pub server_id: Seq<char>,
    pub version: Seq<char>,
    pub go: Seq<char>,
    pub host: Seq<char>,
    pub port: u32,
    pub max_payload: u32,
    pub proto: Option<u8>,
    pub client_id: Option<u64>,
    pub auth_required: Option<bool>,
    pub tls_required: Option<bool>,
    pub tls_verify: Option<bool>,
    pub connect_urls: Option<Seq<Seq<char>>>,
}

impl View for ServerInfo {
    type V = ServerInfoView;

    open spec fn view(&self) -> ServerInfoView {
        ServerInfoView {
            server_id: self.server_id@,
            version: self.version@,
            go: self.go@,
            host: self.host@,
            port: self.port,
            max_payload: self.max_payload,
            proto: self.proto,
            client_id: self.client_id,
            auth_required: self.auth_required,
            tls_required: self.tls_required,
            tls_verify: self.tls_verify,
            connect_urls: match self.connect_urls {
                Some(urls) => Some(text_views(urls@)),
                None => None,
            },
        }
    }
}

/// A `u8` that may be missing, widened.
pub open spec fn widen_u8(n: Option<u8>) -> Option<u64> {
    match n {
        Some(n) => Some(n as u64),
        None => None,
    }
}

/// Whether every text of the INFO can be written as a JSON string.
pub open spec fn info_quotable(v: ServerInfoView) -> bool {
    &&& json_string(v.server_id) is Some
    &&& json_string(v.version) is Some
    &&& json_string(v.go) is Some
    &&& json_string(v.host) is Some
    &&& match v.connect_urls {
        Some(urls) => list_quotable(urls),
        None => true,
    }
}

/// The JSON object of an INFO: the six members that are always there, then
/// those of the six others that have a value, each in its place.
pub open spec fn info_json(v: ServerInfoView) -> Seq<u8> {
    seq![OPEN_BRACE] + text_member(KEY_SERVER_ID@, v.server_id, true) + text_member(
        KEY_VERSION@,
        v.version,
        false,
    ) + text_member(KEY_GO@, v.go, false) + text_member(KEY_HOST@, v.host, false) + number_member(
        KEY_PORT@,
        v.port as u64,
        false,
    ) + number_member(KEY_MAX_PAYLOAD@, v.max_payload as u64, false) + number_piece(
        KEY_PROTO@,
        widen_u8(v.proto),
    ) + number_piece(KEY_CLIENT_ID@, v.client_id) + bool_piece(KEY_AUTH_REQUIRED@, v.auth_required)
        + bool_piece(KEY_TLS_REQUIRED@, v.tls_required) + bool_piece(KEY_TLS_VERIFY@, v.tls_verify)
        + list_piece(KEY_CONNECT_URLS@, v.connect_urls) + seq![CLOSE_BRACE]
}

/// `INFO\t<json>\r\n`
pub open spec fn info_wire(v: ServerInfoView) -> Seq<u8> {
    CMD_INFO@ + tabbed(info_json(v)) + crlf()
}

/// A `u64` that may be missing, as a `u8`.
pub open spec fn narrow_u8(n: Option<u64>) -> Option<u8> {
    match n {
        Some(n) => Some(n as u8),
        None => None,
    }
}

/// The INFO that the members of a JSON object give: `server_id`, `version`,
/// `go` and `host` must be texts, `port` and `max_payload` numbers that fit
/// 32 bits; the others may be missing or `null`. Members of other names are
/// passed over.
pub open spec fn info_of_members(m: Seq<(Seq<char>, Value)>) -> Option<ServerInfoView> {
    let server_id = required_text(m, KEY_SERVER_ID@);
    let version = required_text(m, KEY_VERSION@);
    let go = required_text(m, KEY_GO@);
    let host = required_text(m, KEY_HOST@);
    let port = required_number(m, KEY_PORT@, u32::MAX as u64);
    let max_payload = required_number(m, KEY_MAX_PAYLOAD@, u32::MAX as u64);
    let proto = optional_number(m, KEY_PROTO@, u8::MAX as u64);
    let client_id = optional_number(m, KEY_CLIENT_ID@, u64::MAX);
    let auth_required = optional_bool(m, KEY_AUTH_REQUIRED@);
    let tls_required = optional_bool(m, KEY_TLS_REQUIRED@);
    let tls_verify = optional_bool(m, KEY_TLS_VERIFY@);
    let connect_urls = optional_text_list(m, KEY_CONNECT_URLS@);
    if server_id is Some && version is Some && go is Some && host is Some && port is Some
        && max_payload is Some && proto is Some && client_id is Some && auth_required is Some
        && tls_required is Some && tls_verify is Some && connect_urls is Some {
        Some(
            ServerInfoView {
                server_id: server_id->0,
                version: version->0,
                go: go->0,
                host: host->0,
                port: port->0 as u32,
                max_payload: max_payload->0 as u32,
                proto: narrow_u8(proto->0),
                client_id: client_id->0,
                auth_required: auth_required->0,
                tls_required: tls_required->0,
                tls_verify: tls_verify->0,
                connect_urls: connect_urls->0,
            },
        )
    } else {
        None
    }
}

/// What a frame reads as, taken as an INFO command: the name, a JSON object
/// up to the line end, and in it the members of an INFO.
pub open spec fn info_parse(frame: Seq<u8>) -> Result<ServerInfoView, CommandError> {
    if !ends_with_crlf(frame) {
        Err(CommandError::IncompleteCommandError)
    } else if frame.len() < 4 || frame.take(4) != CMD_INFO@ {
        Err(CommandError::CommandMalformed)
    } else {
        match json_object(frame.subrange(4, frame.len() - 2)) {
            None => Err(CommandError::JsonError(JsonFault::Syntax)),
            Some(m) => match info_of_members(m) {
                Some(v) => Ok(v),
                None => Err(CommandError::JsonError(JsonFault::Structure)),
            },
        }
    }
}

impl ServerInfo {
    /// Reads an INFO out of the members of a JSON object.
    pub fn from_members(members: &Vec<(String, Value)>) -> (r: Option<ServerInfo>)
        ensures
            match r {
                Some(info) => info_of_members(member_views(members@)) == Some(info@),
                None => info_of_members(member_views(members@)) is None,
            },
    {
        let server_id = read_required_text(members, KEY_SERVER_ID.as_slice())?;
        let version = read_required_text(members, KEY_VERSION.as_slice())?;
        let go = read_required_text(members, KEY_GO.as_slice())?;
        let host = read_required_text(members, KEY_HOST.as_slice())?;
        let port = read_required_number(members, KEY_PORT.as_slice(), u32::MAX as u64)?;
        let max_payload = read_required_number(
            members,
            KEY_MAX_PAYLOAD.as_slice(),
            u32::MAX as u64,
        )?;
        let proto = read_optional_number(members, KEY_PROTO.as_slice(), u8::MAX as u64)?;
        let client_id = read_optional_number(members, KEY_CLIENT_ID.as_slice(), u64::MAX)?;
        let auth_required = read_optional_bool(members, KEY_AUTH_REQUIRED.as_slice())?;
        let tls_required = read_optional_bool(members, KEY_TLS_REQUIRED.as_slice())?;
        let tls_verify = read_optional_bool(members, KEY_TLS_VERIFY.as_slice())?;
        let connect_urls = read_optional_text_list(members, KEY_CONNECT_URLS.as_slice())?;
        Some(
            ServerInfo {
                server_id,
                version,
                go,
                host,
                port: port as u32,
                max_payload: max_payload as u32,
                proto: match proto {
                    Some(n) => Some(n as u8),
                    None => None,
                },
                client_id,
                auth_required,
                tls_required,
                tls_verify,
                connect_urls,
            },
        )
    }
}

impl Command for ServerInfo {
    fn into_vec(self) -> (r: Result<Bytes, CommandError>)
        ensures
            match r {
                Ok(b) => info_quotable(self@) && bytes_content(b) == info_wire(self@),
                Err(e) => !info_quotable(self@) && e == CommandError::JsonError(JsonFault::Syntax),
            },
    {
        let mut out: Vec<u8> = Vec::new();
        push_byte(&mut out, OPEN_BRACE);
        write_text_member(&mut out, KEY_SERVER_ID.as_slice(), self.server_id.as_str(), true)?;
        write_text_member(&mut out, KEY_VERSION.as_slice(), self.version.as_str(), false)?;
        write_text_member(&mut out, KEY_GO.as_slice(), self.go.as_str(), false)?;
        write_text_member(&mut out, KEY_HOST.as_slice(), self.host.as_str(), false)?;
        write_number_member(&mut out, KEY_PORT.as_slice(), self.port as u64, false);
        write_number_member(&mut out, KEY_MAX_PAYLOAD.as_slice(), self.max_payload as u64, false);
        write_number_piece(
            &mut out,
            KEY_PROTO.as_slice(),
            match self.proto {
                Some(n) => Some(n as u64),
                None => None,
            },
        );
        write_number_piece(&mut out, KEY_CLIENT_ID.as_slice(), self.client_id);
        write_bool_piece(&mut out, KEY_AUTH_REQUIRED.as_slice(), self.auth_required);
        write_bool_piece(&mut out, KEY_TLS_REQUIRED.as_slice(), self.tls_required);
        write_bool_piece(&mut out, KEY_TLS_VERIFY.as_slice(), self.tls_verify);
        write_list_piece(&mut out, KEY_CONNECT_URLS.as_slice(), &self.connect_urls)?;
        push_byte(&mut out, CLOSE_BRACE);
        assert(out@ =~= info_json(self@));
        let mut frame = start_line(CMD_INFO.as_slice());
        push_field(&mut frame, out.as_slice());
        push_line_end(&mut frame);
        Ok(Bytes::from(frame))
    }

    fn try_parse(buf: Bytes) -> (r: Result<Self, CommandError>)
        ensures
            match r {
                Ok(info) => info_parse(bytes_content(buf)) == Ok::<ServerInfoView, CommandError>(
                    info@,
                ),
                Err(e) => info_parse(bytes_content(buf)) == Err::<ServerInfoView, CommandError>(e),
            },
    {
        let frame: &[u8] = buf.as_ref();
        if !has_line_end(frame) {
            return Err(CommandError::IncompleteCommandError);
        }
        let n = frame.len();
        if n < 4 {
            return Err(CommandError::CommandMalformed);
        }
        let name = slice_subrange(frame, 0, 4);
        assert(name@ =~= frame@.take(4));
        if !bytes_eq(name, CMD_INFO.as_slice()) {
            return Err(CommandError::CommandMalformed);
        }
        assert(n >= 6) by {
            assert(frame@.take(4)[2] == CMD_INFO@[2]);
            assert(frame@.take(4)[3] == CMD_INFO@[3]);
        }
        let members = read_object(slice_subrange(frame, 4, n - 2))?;
        match ServerInfo::from_members(&members) {
            Some(info) => Ok(info),
            None => Err(structure_error()),
        }
    }
}

/// Builder for [`ServerInfo`]: each setter takes the builder and hands it
/// back with one field set.
#[derive(Debug, Clone)]
pub struct ServerInfoBuilder {
    pub server_id: Option<String>,
    pub version: Option<String>,
    pub go: Option<String>,
    pub host: Option<String>,
    pub port: Option<u32>,
    pub max_payload: Option<u32>,
    pub proto: Option<Option<u8>>,
    pub client_id: Option<Option<u64>>,
    pub auth_required: Option<Option<bool>>,
    pub tls_required: Option<Option<bool>>,
    pub tls_verify: Option<Option<bool>>,
    pub connect_urls: Option<Option<Vec<String>>>,
}

impl ServerInfo {
    /// A builder with no field set.
    pub fn builder() -> (r: ServerInfoBuilder)
        ensures
            r.unset(),
    {
        ServerInfoBuilder {
            server_id: None,
            version: None,
            go: None,
            host: None,
            port: None,
            max_payload: None,
            proto: None,
            client_id: None,
            auth_required: None,
            tls_required: None,
            tls_verify: None,
            connect_urls: None,
        }
    }
}

impl ServerInfoBuilder {
    /// Whether no field is set.
    pub open spec fn unset(&self) -> bool {
        &&& self.server_id is None
        &&& self.version is None
        &&& self.go is None
        &&& self.host is None
        &&& self.port is None
        &&& self.max_payload is None
        &&& self.proto is None
        &&& self.client_id is None
        &&& self.auth_required is None
        &&& self.tls_required is None
        &&& self.tls_verify is None
        &&& self.connect_urls is None
    }

    /// The words in which `build` fails, if it does: they name the first
    /// field that must be set and is not.
    pub open spec fn build_error(&self) -> Option<Seq<char>> {
        if self.server_id is None {
            Some(missing_words("server_id"@))
        }         else if self.version is None {
            Some(missing_words("version"@))
        }         else if self.go is None {
            Some(missing_words("go"@))
        }         else if self.host is None {
            Some(missing_words("host"@))
        }         else if self.port is None {
            Some(missing_words("port"@))
        }         else if self.max_payload is None {
            Some(missing_words("max_payload"@))
        } else {
            None
        }
    }

    /// The INFO that `build` gives where every field that must be set is
    /// set.
    pub open spec fn built(&self) -> ServerInfoView {
        ServerInfoView {
            server_id: self.server_id->0@,
            version: self.version->0@,
            go: self.go->0@,
            host: self.host->0@,
            port: self.port->0,
            max_payload: self.max_payload->0,
            proto: match self.proto {
                Some(v) => v,
                None => None,
            },
            client_id: match self.client_id {
                Some(v) => v,
                None => None,
            },
            auth_required: match self.auth_required {
                Some(v) => v,
                None => None,
            },
            tls_required: match self.tls_required {
                Some(v) => v,
                None => None,
            },
            tls_verify: match self.tls_verify {
                Some(v) => v,
                None => None,
            },
            connect_urls: match self.connect_urls {
                Some(Some(urls)) => Some(text_views(urls@)),
                _ => None,
            },
        }
    }

    /// The unique identifier of the NATS server
    pub fn server_id(self, value: &str) -> (r: Self)
        ensures
            r.server_id matches Some(s) && s@ == value@,
            r.version == self.version,
            r.go == self.go,
            r.host == self.host,
            r.port == self.port,
            r.max_payload == self.max_payload,
            r.proto == self.proto,
            r.client_id == self.client_id,
            r.auth_required == self.auth_required,
            r.tls_required == self.tls_required,
            r.tls_verify == self.tls_verify,
            r.connect_urls == self.connect_urls,
    {
        ServerInfoBuilder { server_id: Some(value.to_owned()), ..self }
    }

    /// The version of the NATS server
    pub fn version(self, value: &str) -> (r: Self)
        ensures
            r.version matches Some(s) && s@ == value@,
            r.server_id == self.server_id,
            r.go == self.go,
            r.host == self.host,
            r.port == self.port,
            r.max_payload == self.max_payload,
            r.proto == self.proto,
            r.client_id == self.client_id,
            r.auth_required == self.auth_required,
            r.tls_required == self.tls_required,
            r.tls_verify == self.tls_verify,
            r.connect_urls == self.connect_urls,
    {
        ServerInfoBuilder { version: Some(value.to_owned()), ..self }
    }

    /// The version of golang the NATS server was built with
    pub fn go(self, value: &str) -> (r: Self)
        ensures
            r.go matches Some(s) && s@ == value@,
            r.server_id == self.server_id,
            r.version == self.version,
            r.host == self.host,
            r.port == self.port,
            r.max_payload == self.max_payload,
            r.proto == self.proto,
            r.client_id == self.client_id,
            r.auth_required == self.auth_required,
            r.tls_required == self.tls_required,
            r.tls_verify == self.tls_verify,
            r.connect_urls == self.connect_urls,
    {
        ServerInfoBuilder { go: Some(value.to_owned()), ..self }
    }

    /// The IP address used to start the NATS server
    pub fn host(self, value: &str) -> (r: Self)
        ensures
            r.host matches Some(s) && s@ == value@,
            r.server_id == self.server_id,
            r.version == self.version,
            r.go == self.go,
            r.port == self.port,
            r.max_payload == self.max_payload,
            r.proto == self.proto,
            r.client_id == self.client_id,
            r.auth_required == self.auth_required,
            r.tls_required == self.tls_required,
            r.tls_verify == self.tls_verify,
            r.connect_urls == self.connect_urls,
    {
        ServerInfoBuilder { host: Some(value.to_owned()), ..self }
    }

    /// The port number the NATS server is configured to listen on
    pub fn port(self, value: u32) -> (r: Self)
        ensures
            r.port == Some(value),
            r.server_id == self.server_id,
            r.version == self.version,
            r.go == self.go,
            r.host == self.host,
            r.max_payload == self.max_payload,
            r.proto == self.proto,
            r.client_id == self.client_id,
            r.auth_required == self.auth_required,
            r.tls_required == self.tls_required,
            r.tls_verify == self.tls_verify,
            r.connect_urls == self.connect_urls,
    {
        ServerInfoBuilder { port: Some(value), ..self }
    }

    /// Maximum payload size, in bytes, that the server will accept from the client.
    pub fn max_payload(self, value: u32) -> (r: Self)
        ensures
            r.max_payload == Some(value),
            r.server_id == self.server_id,
            r.version == self.version,
            r.go == self.go,
            r.host == self.host,
            r.port == self.port,
            r.proto == self.proto,
            r.client_id == self.client_id,
            r.auth_required == self.auth_required,
            r.tls_required == self.tls_required,
            r.tls_verify == self.tls_verify,
            r.connect_urls == self.connect_urls,
    {
        ServerInfoBuilder { max_payload: Some(value), ..self }
    }

    /// An integer indicating the protocol version of the server.
    pub fn proto(self, value: Option<u8>) -> (r: Self)
        ensures
            r.proto == Some(value),
            r.server_id == self.server_id,
            r.version == self.version,
            r.go == self.go,
            r.host == self.host,
            r.port == self.port,
            r.max_payload == self.max_payload,
            r.client_id == self.client_id,
            r.auth_required == self.auth_required,
            r.tls_required == self.tls_required,
            r.tls_verify == self.tls_verify,
            r.connect_urls == self.connect_urls,
    {
        ServerInfoBuilder { proto: Some(value), ..self }
    }

    /// The internal client identifier in the server.
    pub fn client_id(self, value: Option<u64>) -> (r: Self)
        ensures
            r.client_id == Some(value),
            r.server_id == self.server_id,
            r.version == self.version,
            r.go == self.go,
            r.host == self.host,
            r.port == self.port,
            r.max_payload == self.max_payload,
            r.proto == self.proto,
            r.auth_required == self.auth_required,
            r.tls_required == self.tls_required,
            r.tls_verify == self.tls_verify,
            r.connect_urls == self.connect_urls,
    {
        ServerInfoBuilder { client_id: Some(value), ..self }
    }

    /// If this is set, then the client should try to authenticate upon connect.
    pub fn auth_required(self, value: Option<bool>) -> (r: Self)
        ensures
            r.auth_required == Some(value),
            r.server_id == self.server_id,
            r.version == self.version,
            r.go == self.go,
            r.host == self.host,
            r.port == self.port,
            r.max_payload == self.max_payload,
            r.proto == self.proto,
            r.client_id == self.client_id,
            r.tls_required == self.tls_required,
            r.tls_verify == self.tls_verify,
            r.connect_urls == self.connect_urls,
    {
        ServerInfoBuilder { auth_required: Some(value), ..self }
    }

    /// If this is set, then the client must perform the TLS/1.2 handshake.
    pub fn tls_required(self, value: Option<bool>) -> (r: Self)
        ensures
            r.tls_required == Some(value),
            r.server_id == self.server_id,
            r.version == self.version,
            r.go == self.go,
            r.host == self.host,
            r.port == self.port,
            r.max_payload == self.max_payload,
            r.proto == self.proto,
            r.client_id == self.client_id,
            r.auth_required == self.auth_required,
            r.tls_verify == self.tls_verify,
            r.connect_urls == self.connect_urls,
    {
        ServerInfoBuilder { tls_required: Some(value), ..self }
    }

    /// If this is set, the client must provide a valid certificate during the TLS handshake.
    pub fn tls_verify(self, value: Option<bool>) -> (r: Self)
        ensures
            r.tls_verify == Some(value),
            r.server_id == self.server_id,
            r.version == self.version,
            r.go == self.go,
            r.host == self.host,
            r.port == self.port,
            r.max_payload == self.max_payload,
            r.proto == self.proto,
            r.client_id == self.client_id,
            r.auth_required == self.auth_required,
            r.tls_required == self.tls_required,
            r.connect_urls == self.connect_urls,
    {
        ServerInfoBuilder { tls_verify: Some(value), ..self }
    }

    /// An optional list of server urls that a client can connect to.
    pub fn connect_urls(self, value: Option<Vec<String>>) -> (r: Self)
        ensures
            r.connect_urls == Some(value),
            r.server_id == self.server_id,
            r.version == self.version,
            r.go == self.go,
            r.host == self.host,
            r.port == self.port,
            r.max_payload == self.max_payload,
            r.proto == self.proto,
            r.client_id == self.client_id,
            r.auth_required == self.auth_required,
            r.tls_required == self.tls_required,
            r.tls_verify == self.tls_verify,
    {
        ServerInfoBuilder { connect_urls: Some(value), ..self }
    }

    /// Builds the INFO: `server_id`, `version`, `go`, `host`, `port` and
    /// `max_payload` must be set; each of the others is none where it was
    /// not set.
    pub fn build(self) -> (r: Result<ServerInfo, String>)
        ensures
            match self.build_error() {
                Some(words) => r matches Err(m) && m@ == words,
                None => r matches Ok(info) && info@ == self.built(),
            },
    {
        let server_id = match self.server_id {
            Some(v) => v,
            None => {
                return Err(missing("server_id"));
            },
        };
        let version = match self.version {
            Some(v) => v,
            None => {
                return Err(missing("version"));
            },
        };
        let go = match self.go {
            Some(v) => v,
            None => {
                return Err(missing("go"));
            },
        };
        let host = match self.host {
            Some(v) => v,
            None => {
                return Err(missing("host"));
            },
        };
        let port = match self.port {
            Some(v) => v,
            None => {
                return Err(missing("port"));
            },
        };
        let max_payload = match self.max_payload {
            Some(v) => v,
            None => {
                return Err(missing("max_payload"));
            },
        };
        Ok(
            ServerInfo {
                server_id,
                version,
                go,
                host,
                port,
                max_payload,
                proto: match self.proto {
                    Some(v) => v,
                    None => None,
                },
                client_id: match self.client_id {
                    Some(v) => v,
                    None => None,
                },
                auth_required: match self.auth_required {
                    Some(v) => v,
                    None => None,
                },
                tls_required: match self.tls_required {
                    Some(v) => v,
                    None => None,
                },
                tls_verify: match self.tls_verify {
                    Some(v) => v,
                    None => None,
                },
                connect_urls: match self.connect_urls {
                    Some(v) => v,
                    None => None,
                },
            },
        )
    }
}

impl Default for ServerInfoBuilder {
    fn default() -> (r: Self)
        ensures
            r.unset(),
    {
        ServerInfo::builder()
    }
}

} // verus!
