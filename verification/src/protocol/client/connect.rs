use vstd::prelude::*;
use vstd::slice::slice_subrange;
use bytes::Bytes;
use serde_json::Value;
use crate::buf::bytes_content;
use crate::json::{
    bool_member, bool_piece, json_object, json_string, member_views, number_piece, optional_bool,
    optional_number, optional_quotable, optional_text, read_object, read_optional_bool,
    read_optional_number, read_optional_text, read_required_bool, read_required_text,
    required_bool, required_text, structure_error, text_member, text_piece, write_bool_member,
    write_bool_piece, write_number_piece, write_text_member, write_text_piece, CLOSE_BRACE,
    KEY_AUTH_TOKEN, KEY_ECHO, KEY_LANG, KEY_NAME, KEY_PASS, KEY_PEDANTIC, KEY_PROTOCOL,
    KEY_TLS_REQUIRED, KEY_USER, KEY_VERBOSE, KEY_VERSION, OPEN_BRACE,
};
use crate::protocol::client::pub_cmd::flat_text;
use crate::protocol::Command;
use crate::protocol::error::{CommandError, JsonFault};
use crate::protocol::server::info::{narrow_u8, widen_u8};
use crate::protocol::wire::{
    crlf, ends_with_crlf, has_line_end, push_field, push_line_end, start_line, tabbed, CMD_CONNECT,
};
use crate::text::{bytes_eq, copy_text, opt_text, push_byte};

verus! {

/// The CONNECT message is the client version of the INFO message. Once the client has established a
/// TCP/IP socket connection with the NATS server, and an INFO message has been received from the
/// server, the client may send a CONNECT message to the NATS server to provide more information
/// about the current connection as well as security information.
#[derive(Debug, Clone, PartialEq)]
pub struct ConnectCommand {
    /// Turns on +OK protocol acknowledgements.
    pub verbose: bool,
    /// Turns on additional strict format checking, e.g. for properly formed subjects
    pub pedantic: bool,
    /// Indicates whether the client requires an SSL connection.
    pub tls_required: bool,
    /// Client authorization token (if auth_required is set)
    pub auth_token: Option<String>,
    /// Connection username (if auth_required is set)
    pub user: Option<String>,
    /// Connection password (if auth_required is set)
    pub pass: Option<String>,
    /// Optional client name
    pub name: Option<String>,
    /// The implementation language of the client.
    pub lang: String,
    /// The version of the client.
    pub version: String,
    /// Optional int. Sending 0 (or absent) indicates that the client supports
    /// the first protocol level. Sending 1 indicates that the client
    /// supports dynamic reconfiguration of cluster topology changes by
    /// asynchronously receiving INFO messages with known servers it can
    /// reconnect to.
    pub protocol: Option<u8>,
    /// Optional boolean. If set to true, the server (version 1.2.0+) will not send originating
    /// messages from this connection to its own subscriptions. Clients should set this to true only
    /// for server supporting this feature, which is when proto in the INFO protocol is set to at
    /// least 1.
    pub echo: Option<bool>,
}

/// A CONNECT command as plain values.
pub struct ConnectCommandView {
    pub verbose: bool,
    pub pedantic: bool,
    pub tls_required: bool,
    pub auth_token: Option<Seq<char>>,
    pub user: Option<Seq<char>>,
    pub pass: Option<Seq<char>>,
    pub name: Option<Seq<char>>,
    pub lang: Seq<char>,
    pub version: Seq<char>,
    pub protocol: Option<u8>,
    pub echo: Option<bool>,
}

impl View for ConnectCommand {
    type V = ConnectCommandView;

    open spec fn view(&self) -> ConnectCommandView {
        ConnectCommandView {
            verbose: self.verbose,
            pedantic: self.pedantic,
            tls_required: self.tls_required,
            auth_token: opt_text(self.auth_token),
            user: opt_text(self.user),
            pass: opt_text(self.pass),
            name: opt_text(self.name),
            lang: self.lang@,
            version: self.version@,
            protocol: self.protocol,
            echo: self.echo,
        }
    }
}

/// Whether every text of the CONNECT can be written as a JSON string.
pub open spec fn connect_quotable(v: ConnectCommandView) -> bool {
    &&& optional_quotable(v.auth_token)
    &&& optional_quotable(v.user)
    &&& optional_quotable(v.pass)
    &&& optional_quotable(v.name)
    &&& json_string(v.lang) is Some
    &&& json_string(v.version) is Some
}

/// The JSON object of a CONNECT: its members in the order of the fields,
/// those without a value left out.
pub open spec fn connect_json(v: ConnectCommandView) -> Seq<u8> {
    seq![OPEN_BRACE] + bool_member(KEY_VERBOSE@, v.verbose, true) + bool_member(
        KEY_PEDANTIC@,
        v.pedantic,
        false,
    ) + bool_member(KEY_TLS_REQUIRED@, v.tls_required, false) + text_piece(
        KEY_AUTH_TOKEN@,
        v.auth_token,
    ) + text_piece(KEY_USER@, v.user) + text_piece(KEY_PASS@, v.pass) + text_piece(
        KEY_NAME@,
        v.name,
    ) + text_member(KEY_LANG@, v.lang, false) + text_member(KEY_VERSION@, v.version, false)
        + number_piece(KEY_PROTOCOL@, widen_u8(v.protocol)) + bool_piece(KEY_ECHO@, v.echo) + seq![
        CLOSE_BRACE,
    ]
}

/// `CONNECT\t<json>\r\n`
pub open spec fn connect_wire(v: ConnectCommandView) -> Seq<u8> {
    CMD_CONNECT@ + tabbed(connect_json(v)) + crlf()
}

/// The CONNECT that the members of a JSON object give: `verbose`,
/// `pedantic` and `tls_required` must be truth values, `lang` and `version`
/// texts; the others may be missing or `null`. Members of other names are
/// passed over.
pub open spec fn connect_of_members(m: Seq<(Seq<char>, Value)>) -> Option<ConnectCommandView> {
    let verbose = required_bool(m, KEY_VERBOSE@);
    let pedantic = required_bool(m, KEY_PEDANTIC@);
    let tls_required = required_bool(m, KEY_TLS_REQUIRED@);
    let auth_token = optional_text(m, KEY_AUTH_TOKEN@);
    let user = optional_text(m, KEY_USER@);
    let pass = optional_text(m, KEY_PASS@);
    let name = optional_text(m, KEY_NAME@);
    let lang = required_text(m, KEY_LANG@);
    let version = required_text(m, KEY_VERSION@);
    let protocol = optional_number(m, KEY_PROTOCOL@, u8::MAX as u64);
    let echo = optional_bool(m, KEY_ECHO@);
    if verbose is Some && pedantic is Some && tls_required is Some && auth_token is Some
        && user is Some && pass is Some && name is Some && lang is Some && version is Some
        && protocol is Some && echo is Some {
        Some(
            ConnectCommandView {
                verbose: verbose->0,
                pedantic: pedantic->0,
                tls_required: tls_required->0,
                auth_token: auth_token->0,
                user: user->0,
                pass: pass->0,
                name: name->0,
                lang: lang->0,
                version: version->0,
                protocol: narrow_u8(protocol->0),
                echo: echo->0,
            },
        )
    } else {
        None
    }
}

/// What a frame reads as, taken as a CONNECT command: the name, a JSON
/// object up to the line end, and in it the members of a CONNECT.
pub open spec fn connect_parse(frame: Seq<u8>) -> Result<ConnectCommandView, CommandError> {
    if !ends_with_crlf(frame) {
        Err(CommandError::IncompleteCommandError)
    } else if frame.len() < 7 || frame.take(7) != CMD_CONNECT@ {
        Err(CommandError::CommandMalformed)
    } else {
        match json_object(frame.subrange(7, frame.len() - 2)) {
            None => Err(CommandError::JsonError(JsonFault::Syntax)),
            Some(m) => match connect_of_members(m) {
                Some(v) => Ok(v),
                None => Err(CommandError::JsonError(JsonFault::Structure)),
            },
        }
    }
}

impl ConnectCommand {
    /// A second copy of the command.
    pub fn duplicate(&self) -> (r: ConnectCommand)
        ensures
            r@ == self@,
    {
        ConnectCommand {
            verbose: self.verbose,
            pedantic: self.pedantic,
            tls_required: self.tls_required,
            auth_token: copy_text(&self.auth_token),
            user: copy_text(&self.user),
            pass: copy_text(&self.pass),
            name: copy_text(&self.name),
            lang: self.lang.clone(),
            version: self.version.clone(),
            protocol: self.protocol,
            echo: self.echo,
        }
    }

    /// Reads a CONNECT out of the members of a JSON object.
    pub fn from_members(members: &Vec<(String, Value)>) -> (r: Option<ConnectCommand>)
        ensures
            match r {
                Some(c) => connect_of_members(member_views(members@)) == Some(c@),
                None => connect_of_members(member_views(members@)) is None,
            },
    {
        let verbose = read_required_bool(members, KEY_VERBOSE.as_slice())?;
        let pedantic = read_required_bool(members, KEY_PEDANTIC.as_slice())?;
        let tls_required = read_required_bool(members, KEY_TLS_REQUIRED.as_slice())?;
        let auth_token = read_optional_text(members, KEY_AUTH_TOKEN.as_slice())?;
        let user = read_optional_text(members, KEY_USER.as_slice())?;
        let pass = read_optional_text(members, KEY_PASS.as_slice())?;
        let name = read_optional_text(members, KEY_NAME.as_slice())?;
        let lang = read_required_text(members, KEY_LANG.as_slice())?;
        let version = read_required_text(members, KEY_VERSION.as_slice())?;
        let protocol = read_optional_number(members, KEY_PROTOCOL.as_slice(), u8::MAX as u64)?;
        let echo = read_optional_bool(members, KEY_ECHO.as_slice())?;
        Some(
            ConnectCommand {
                verbose,
                pedantic,
                tls_required,
                auth_token,
                user,
                pass,
                name,
                lang,
                version,
                protocol: match protocol {
                    Some(n) => Some(n as u8),
                    None => None,
                },
                echo,
            },
        )
    }
}

impl Command for ConnectCommand {
    fn into_vec(self) -> (r: Result<Bytes, CommandError>)
        ensures
            match r {
                Ok(b) => connect_quotable(self@) && bytes_content(b) == connect_wire(self@),
                Err(e) => !connect_quotable(self@) && e == CommandError::JsonError(
                    JsonFault::Syntax,
                ),
            },
    {
        let mut out: Vec<u8> = Vec::new();
        push_byte(&mut out, OPEN_BRACE);
        write_bool_member(&mut out, KEY_VERBOSE.as_slice(), self.verbose, true);
        write_bool_member(&mut out, KEY_PEDANTIC.as_slice(), self.pedantic, false);
        write_bool_member(&mut out, KEY_TLS_REQUIRED.as_slice(), self.tls_required, false);
        write_text_piece(&mut out, KEY_AUTH_TOKEN.as_slice(), &self.auth_token)?;
        write_text_piece(&mut out, KEY_USER.as_slice(), &self.user)?;
        write_text_piece(&mut out, KEY_PASS.as_slice(), &self.pass)?;
        write_text_piece(&mut out, KEY_NAME.as_slice(), &self.name)?;
        write_text_member(&mut out, KEY_LANG.as_slice(), self.lang.as_str(), false)?;
        write_text_member(&mut out, KEY_VERSION.as_slice(), self.version.as_str(), false)?;
        write_number_piece(
            &mut out,
            KEY_PROTOCOL.as_slice(),
            match self.protocol {
                Some(n) => Some(n as u64),
                None => None,
            },
        );
        write_bool_piece(&mut out, KEY_ECHO.as_slice(), self.echo);
        push_byte(&mut out, CLOSE_BRACE);
        assert(out@ =~= connect_json(self@));
        let mut frame = start_line(CMD_CONNECT.as_slice());
        push_field(&mut frame, out.as_slice());
        push_line_end(&mut frame);
        Ok(Bytes::from(frame))
    }

    fn try_parse(buf: Bytes) -> (r: Result<Self, CommandError>)
        ensures
            match r {
                Ok(c) => connect_parse(bytes_content(buf)) == Ok::<
                    ConnectCommandView,
                    CommandError,
                >(c@),
                Err(e) => connect_parse(bytes_content(buf)) == Err::<
                    ConnectCommandView,
                    CommandError,
                >(e),
            },
    {
        let frame: &[u8] = buf.as_ref();
        if !has_line_end(frame) {
            return Err(CommandError::IncompleteCommandError);
        }
        let n = frame.len();
        if n < 7 {
            return Err(CommandError::CommandMalformed);
        }
        let name = slice_subrange(frame, 0, 7);
        assert(name@ =~= frame@.take(7));
        if !bytes_eq(name, CMD_CONNECT.as_slice()) {
            return Err(CommandError::CommandMalformed);
        }
        assert(n >= 9) by {
            assert(frame@.take(7)[5] == CMD_CONNECT@[5]);
            assert(frame@.take(7)[6] == CMD_CONNECT@[6]);
        }
        let members = read_object(slice_subrange(frame, 7, n - 2))?;
        match ConnectCommand::from_members(&members) {
            Some(c) => Ok(c),
            None => Err(structure_error()),
        }
    }
}

/// Builder for [`ConnectCommand`]: each setter takes the builder and hands
/// it back with one field set. A field that is never set takes its default.
#[derive(Debug, Clone)]
pub struct ConnectCommandBuilder {
    pub verbose: Option<bool>,
    pub pedantic: Option<bool>,
    pub tls_required: Option<bool>,
    pub auth_token: Option<Option<String>>,
    pub user: Option<Option<String>>,
    pub pass: Option<Option<String>>,
    pub name: Option<Option<String>>,
    pub lang: Option<String>,
    pub version: Option<String>,
    pub protocol: Option<Option<u8>>,
    pub echo: Option<Option<bool>>,
}

/// The name under which this client makes itself known.
pub open spec fn default_name_text() -> Seq<char> {
    "nitox"@
}

/// The language that this client is written in.
pub open spec fn default_lang_text() -> Seq<char> {
    "rust"@
}

/// The version of this client.
pub open spec fn default_version_text() -> Seq<char> {
    "0.1.0"@
}

impl ConnectCommand {
    /// A builder with no field set.
    pub fn builder() -> (r: ConnectCommandBuilder)
        ensures
            r.unset(),
    {
        ConnectCommandBuilder {
            verbose: None,
            pedantic: None,
            tls_required: None,
            auth_token: None,
            user: None,
            pass: None,
            name: None,
            lang: None,
            version: None,
            protocol: None,
            echo: None,
        }
    }
}

impl ConnectCommandBuilder {
    /// Whether no field is set.
    pub open spec fn unset(&self) -> bool {
        &&& self.verbose is None
        &&& self.pedantic is None
        &&& self.tls_required is None
        &&& self.auth_token is None
        &&& self.user is None
        &&& self.pass is None
        &&& self.name is None
        &&& self.lang is None
        &&& self.version is None
        &&& self.protocol is None
        &&& self.echo is None
    }

    /// The command that `build` gives.
    pub open spec fn built(&self) -> ConnectCommandView {
        ConnectCommandView {
            verbose: match self.verbose {
                Some(v) => v,
                None => false,
            },
            pedantic: match self.pedantic {
                Some(v) => v,
                None => false,
            },
            tls_required: match self.tls_required {
                Some(v) => v,
                None => false,
            },
            auth_token: flat_text(self.auth_token),
            user: flat_text(self.user),
            pass: flat_text(self.pass),
            name: match self.name {
                Some(n) => opt_text(n),
                None => Some(default_name_text()),
            },
            lang: match self.lang {
                Some(l) => l@,
                None => default_lang_text(),
            },
            version: match self.version {
                Some(v) => v@,
                None => default_version_text(),
            },
            protocol: match self.protocol {
                Some(p) => p,
                None => None,
            },
            echo: match self.echo {
                Some(e) => e,
                None => None,
            },
        }
    }

    /// The name that a command takes where none is set.
    pub fn default_name(&self) -> (r: Result<Option<String>, String>)
        ensures
            r matches Ok(Some(n)) && n@ == default_name_text(),
    {
        Ok(Some("nitox".to_owned()))
    }

    /// The version that a command takes where none is set.
    pub fn default_ver(&self) -> (r: Result<String, String>)
        ensures
            r matches Ok(v) && v@ == default_version_text(),
    {
        Ok("0.1.0".to_owned())
    }

    /// The language that a command takes where none is set.
    pub fn default_lang(&self) -> (r: Result<String, String>)
        ensures
            r matches Ok(l) && l@ == default_lang_text(),
    {
        Ok("rust".to_owned())
    }

    /// Turns on +OK protocol acknowledgements.
    pub fn verbose(self, value: bool) -> (r: Self)
        ensures
            r.verbose == Some(value),
            r.pedantic == self.pedantic,
            r.tls_required == self.tls_required,
            r.auth_token == self.auth_token,
            r.user == self.user,
            r.pass == self.pass,
            r.name == self.name,
            r.lang == self.lang,
            r.version == self.version,
            r.protocol == self.protocol,
            r.echo == self.echo,
    {
        ConnectCommandBuilder { verbose: Some(value), ..self }
    }

    /// Turns on additional strict format checking, e.g. for properly formed subjects
    pub fn pedantic(self, value: bool) -> (r: Self)
        ensures
            r.pedantic == Some(value),
            r.verbose == self.verbose,
            r.tls_required == self.tls_required,
            r.auth_token == self.auth_token,
            r.user == self.user,
            r.pass == self.pass,
            r.name == self.name,
            r.lang == self.lang,
            r.version == self.version,
            r.protocol == self.protocol,
            r.echo == self.echo,
    {
        ConnectCommandBuilder { pedantic: Some(value), ..self }
    }

    /// Indicates whether the client requires an SSL connection.
    pub fn tls_required(self, value: bool) -> (r: Self)
        ensures
            r.tls_required == Some(value),
            r.verbose == self.verbose,
            r.pedantic == self.pedantic,
            r.auth_token == self.auth_token,
            r.user == self.user,
            r.pass == self.pass,
            r.name == self.name,
            r.lang == self.lang,
            r.version == self.version,
            r.protocol == self.protocol,
            r.echo == self.echo,
    {
        ConnectCommandBuilder { tls_required: Some(value), ..self }
    }

    /// Client authorization token (if auth_required is set)
    pub fn auth_token(self, value: Option<String>) -> (r: Self)
        ensures
            r.auth_token == Some(value),
            r.verbose == self.verbose,
            r.pedantic == self.pedantic,
            r.tls_required == self.tls_required,
            r.user == self.user,
            r.pass == self.pass,
            r.name == self.name,
            r.lang == self.lang,
            r.version == self.version,
            r.protocol == self.protocol,
            r.echo == self.echo,
    {
        ConnectCommandBuilder { auth_token: Some(value), ..self }
    }

    /// Connection username (if auth_required is set)
    pub fn user(self, value: Option<String>) -> (r: Self)
        ensures
            r.user == Some(value),
            r.verbose == self.verbose,
            r.pedantic == self.pedantic,
            r.tls_required == self.tls_required,
            r.auth_token == self.auth_token,
            r.pass == self.pass,
            r.name == self.name,
            r.lang == self.lang,
            r.version == self.version,
            r.protocol == self.protocol,
            r.echo == self.echo,
    {
        ConnectCommandBuilder { user: Some(value), ..self }
    }

    /// Connection password (if auth_required is set)
    pub fn pass(self, value: Option<String>) -> (r: Self)
        ensures
            r.pass == Some(value),
            r.verbose == self.verbose,
            r.pedantic == self.pedantic,
            r.tls_required == self.tls_required,
            r.auth_token == self.auth_token,
            r.user == self.user,
            r.name == self.name,
            r.lang == self.lang,
            r.version == self.version,
            r.protocol == self.protocol,
            r.echo == self.echo,
    {
        ConnectCommandBuilder { pass: Some(value), ..self }
    }

    /// Optional client name
    pub fn name(self, value: Option<String>) -> (r: Self)
        ensures
            r.name == Some(value),
            r.verbose == self.verbose,
            r.pedantic == self.pedantic,
            r.tls_required == self.tls_required,
            r.auth_token == self.auth_token,
            r.user == self.user,
            r.pass == self.pass,
            r.lang == self.lang,
            r.version == self.version,
            r.protocol == self.protocol,
            r.echo == self.echo,
    {
        ConnectCommandBuilder { name: Some(value), ..self }
    }

    /// The implementation language of the client.
    pub fn lang(self, value: &str) -> (r: Self)
        ensures
            r.lang matches Some(s) && s@ == value@,
            r.verbose == self.verbose,
            r.pedantic == self.pedantic,
            r.tls_required == self.tls_required,
            r.auth_token == self.auth_token,
            r.user == self.user,
            r.pass == self.pass,
            r.name == self.name,
            r.version == self.version,
            r.protocol == self.protocol,
            r.echo == self.echo,
    {
        ConnectCommandBuilder { lang: Some(value.to_owned()), ..self }
    }

    /// The version of the client.
    pub fn version(self, value: &str) -> (r: Self)
        ensures
            r.version matches Some(s) && s@ == value@,
            r.verbose == self.verbose,
            r.pedantic == self.pedantic,
            r.tls_required == self.tls_required,
            r.auth_token == self.auth_token,
            r.user == self.user,
            r.pass == self.pass,
            r.name == self.name,
            r.lang == self.lang,
            r.protocol == self.protocol,
            r.echo == self.echo,
    {
        ConnectCommandBuilder { version: Some(value.to_owned()), ..self }
    }

    /// The protocol level that the client supports
    pub fn protocol(self, value: Option<u8>) -> (r: Self)
        ensures
            r.protocol == Some(value),
            r.verbose == self.verbose,
            r.pedantic == self.pedantic,
            r.tls_required == self.tls_required,
            r.auth_token == self.auth_token,
            r.user == self.user,
            r.pass == self.pass,
            r.name == self.name,
            r.lang == self.lang,
            r.version == self.version,
            r.echo == self.echo,
    {
        ConnectCommandBuilder { protocol: Some(value), ..self }
    }

    /// Whether the server is to send the client its own messages
    pub fn echo(self, value: Option<bool>) -> (r: Self)
        ensures
            r.echo == Some(value),
            r.verbose == self.verbose,
            r.pedantic == self.pedantic,
            r.tls_required == self.tls_required,
            r.auth_token == self.auth_token,
            r.user == self.user,
            r.pass == self.pass,
            r.name == self.name,
            r.lang == self.lang,
            r.version == self.version,
            r.protocol == self.protocol,
    {
        ConnectCommandBuilder { echo: Some(value), ..self }
    }

    /// Builds the command. It cannot fail: every field has a default.
    pub fn build(self) -> (r: Result<ConnectCommand, String>)
        ensures
            r matches Ok(c) && c@ == self.built(),
    {
        let default_name = self.default_name()?;
        let default_lang = self.default_lang()?;
        let default_version = self.default_ver()?;
        let name = match self.name {
            Some(n) => n,
            None => default_name,
        };
        let lang = match self.lang {
            Some(l) => l,
            None => default_lang,
        };
        let version = match self.version {
            Some(v) => v,
            None => default_version,
        };
        Ok(
            ConnectCommand {
                verbose: match self.verbose {
                    Some(v) => v,
                    None => false,
                },
                pedantic: match self.pedantic {
                    Some(v) => v,
                    None => false,
                },
                tls_required: match self.tls_required {
                    Some(v) => v,
                    None => false,
                },
                auth_token: match self.auth_token {
                    Some(v) => v,
                    None => None,
                },
                user: match self.user {
                    Some(v) => v,
                    None => None,
                },
                pass: match self.pass {
                    Some(v) => v,
                    None => None,
                },
                name,
                lang,
                version,
                protocol: match self.protocol {
                    Some(v) => v,
                    None => None,
                },
                echo: match self.echo {
                    Some(v) => v,
                    None => None,
                },
            },
        )
    }
}

impl Default for ConnectCommandBuilder {
    fn default() -> (r: Self)
        ensures
            r.unset(),
    {
        ConnectCommand::builder()
    }
}

} // verus!
