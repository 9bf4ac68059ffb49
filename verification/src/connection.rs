//! Opening a session, and what its socket brings.
use tokio_tungstenite::tungstenite::client::IntoClientRequest;
use vstd::prelude::*;
use vstd::string::{StrSliceExecFns, StringExecFns};

use crate::error::RdowsError;
use crate::frame;
use crate::frame::RdowsHeader;
use crate::memory::ProtectionDomain;
use crate::message::{ConnectPayload, MessageModel, RdowsMessage};
use crate::opcode::Opcode;
use crate::random::random_word;
use crate::subprotocol::names_subprotocol;
use crate::{DEFAULT_ICC, DEFAULT_MAX_MSG_SIZE};

verus! {

/// What the two sides agreed on when the session was opened.
pub struct ConnectionParams {
    pub session_id: u32,
    pub pd: ProtectionDomain,
    pub max_msg_size: u32,
    pub initial_remote_seq: u32,
    pub icc: u32,
}

/// The host and the port that a URL names, as far as it does.
pub struct UrlParts {
    pub host: Option<String>,
    pub port: Option<u16>,
}

/// Where a server listens.
pub struct Endpoint {
    pub host: String,
    pub port: u16,
}

impl View for UrlParts {
    type V = (Option<Seq<char>>, Option<u16>);

    open spec fn view(&self) -> (Option<Seq<char>>, Option<u16>) {
        (
            match self.host {
                Some(host) => Some(host@),
                None => None,
            },
            self.port,
        )
    }
}

impl View for Endpoint {
    type V = (Seq<char>, u16);

    open spec fn view(&self) -> (Seq<char>, u16) {
        (self.host@, self.port)
    }
}

/// The host and port of the WebSocket request that a URL stands for, or what is
/// wrong with the URL.
pub uninterp spec fn request_target(url: Seq<char>) -> Result<
    (Option<Seq<char>>, Option<u16>),
    Seq<char>,
>;

/// A parsed URL, with its texts as sequences.
pub open spec fn target_view(parts: Result<UrlParts, String>) -> Result<
    (Option<Seq<char>>, Option<u16>),
    Seq<char>,
> {
    match parts {
        Ok(p) => Ok(p@),
        Err(e) => Err(e@),
    }
}

/// `tungstenite::client::IntoClientRequest::into_client_request` on a string:
/// builds the WebSocket request for the URL. Handed out are the host and port
/// of the request's URI, or the text of the error. Both depend on the URL alone.
#[verifier::external_body]
fn client_request(url: &str) -> (r: Result<UrlParts, String>)
    ensures
        target_view(r) == request_target(url@),
{
    match url.into_client_request() {
        Ok(request) => Ok(
            UrlParts {
                host: request.uri().host().map(str::to_string),
                port: request.uri().port_u16(),
            },
        ),
        Err(e) => Err(e.to_string()),
    }
}

/// Whether `s` begins with `prefix`.
fn begins_with(s: &str, prefix: &str) -> (r: bool)
    ensures
        r == prefix@.is_prefix_of(s@),
{
    let n = prefix.unicode_len();
    if s.unicode_len() < n {
        return false;
    }
    let mut i: usize = 0;
    while i < n
        invariant
            i <= n == prefix@.len() <= s@.len(),
            forall|j: int| 0 <= j < i ==> s@[j] == prefix@[j],
        decreases n - i,
    {
        if s.get_char(i) != prefix.get_char(i) {
            return false;
        }
        i += 1;
    }
    proof {
        assert(prefix@ =~= s@.subrange(0, prefix@.len() as int));
    }
    true
}

/// The URL asks for a connection without TLS.
pub open spec fn without_tls(url: Seq<char>) -> bool {
    "ws://"@.is_prefix_of(url)
}

/// `r` is the endpoint that a URL leads to, given what it parses to: TLS is a
/// must, so is a host, and the port is 443 unless the URL says otherwise.
pub open spec fn endpoint_result(
    url: Seq<char>,
    target: Result<(Option<Seq<char>>, Option<u16>), Seq<char>>,
    r: Result<Endpoint, RdowsError>,
) -> bool {
    if without_tls(url) {
        r matches Err(RdowsError::ConnectionRejected(why))
            && why@ == "TLS required: use wss:// not ws://"@
    } else {
        match target {
            Err(e) => r matches Err(RdowsError::WebSocket(why)) && why@ == e,
            Ok((None, _)) => r matches Err(RdowsError::ConnectionRejected(why)) && why@
                == "no host in URL"@,
            Ok((Some(host), port)) => r matches Ok(endpoint) && endpoint@ == (
                host,
                match port {
                    Some(p) => p,
                    None => 443,
                },
            ),
        }
    }
}

/// Where to connect to for `url`.
pub fn connect(url: &str) -> (r: Result<Endpoint, RdowsError>)
    ensures
        endpoint_result(url@, request_target(url@), r),
{
    if begins_with(url, "ws://") {
        return Err(
            RdowsError::ConnectionRejected("TLS required: use wss:// not ws://".to_owned()),
        );
    }
    connect_to(url, client_request(url))
}

/// `connect` with what the URL parses to.
pub fn connect_to(url: &str, parts: Result<UrlParts, String>) -> (r: Result<Endpoint, RdowsError>)
    ensures
        endpoint_result(url@, target_view(parts), r),
{
    if begins_with(url, "ws://") {
        return Err(
            RdowsError::ConnectionRejected("TLS required: use wss:// not ws://".to_owned()),
        );
    }
    match parts {
        Err(e) => Err(RdowsError::WebSocket(e)),
        Ok(p) => match p.host {
            None => Err(RdowsError::ConnectionRejected("no host in URL".to_owned())),
            Some(host) => {
                let port: u16 = match p.port {
                    Some(port) => port,
                    None => 443,
                };
                Ok(Endpoint { host, port })
            },
        },
    }
}

/// Why a host cannot be the name of a TLS server, if it cannot.
pub uninterp spec fn server_name_fault(host: Seq<char>) -> Option<Seq<char>>;

/// `rustls::pki_types::ServerName::try_from` on a `String`: says whether the
/// text is a DNS name or an IP address. Handed out is the text of the error.
#[verifier::external_body]
fn server_name_error(host: &str) -> (r: Option<String>)
    ensures
        match r {
            Some(e) => server_name_fault(host@) == Some(e@),
            None => server_name_fault(host@) is None,
        },
{
    match rustls::pki_types::ServerName::try_from(host.to_string()) {
        Ok(_) => None,
        Err(e) => Some(e.to_string()),
    }
}

/// `r` accepts a server name with the given fault, or lack of one.
pub open spec fn server_name_result(fault: Option<Seq<char>>, r: Result<(), RdowsError>) -> bool {
    match fault {
        None => r == Ok::<(), RdowsError>(()),
        Some(e) => r matches Err(RdowsError::Tls(why)) && why@ == "invalid server name: "@ + e,
    }
}

/// Checks that TLS can be asked for the server `host`.
pub fn check_server_name(host: &str) -> (r: Result<(), RdowsError>)
    ensures
        server_name_result(server_name_fault(host@), r),
{
    accept_server_name(server_name_error(host))
}

/// `check_server_name` with the fault that was found.
pub fn accept_server_name(fault: Option<String>) -> (r: Result<(), RdowsError>)
    ensures
        server_name_result(
            match fault {
                Some(e) => Some(e@),
                None => None,
            },
            r,
        ),
{
    match fault {
        None => Ok(()),
        Some(e) => {
            let mut why = "invalid server name: ".to_owned();
            why.append(e.as_str());
            Err(RdowsError::Tls(why))
        },
    }
}

/// Checks that the server agreed to the subprotocol; `value` is the field of
/// its response that names the one it chose.
pub fn check_echo(value: Option<&[u8]>) -> (r: Result<(), RdowsError>)
    ensures
        if value matches Some(v) && crate::subprotocol::names(v@) {
            r == Ok::<(), RdowsError>(())
        } else {
            r matches Err(RdowsError::ConnectionRejected(why)) && why@
                == "server did not echo rdows.v1 subprotocol"@
        },
{
    if let Some(v) = value {
        if names_subprotocol(v) {
            return Ok(());
        }
    }
    Err(
        RdowsError::ConnectionRejected("server did not echo rdows.v1 subprotocol".to_owned()),
    )
}

/// The CONNECT frame of session `session_id`.
pub open spec fn connect_message(session_id: u32) -> MessageModel {
    MessageModel::Connect(
        RdowsHeader::spec_new(Opcode::Connect, session_id, 0, 0),
        ConnectPayload {
            pd: ProtectionDomain(1),
            capability_flags: 0,
            max_msg_size: DEFAULT_MAX_MSG_SIZE,
            icc: DEFAULT_ICC,
        },
    )
}

/// The session number that a random word leads to: the word itself, but never
/// zero.
pub open spec fn session_number(draw: u32) -> u32 {
    if draw == 0 {
        1
    } else {
        draw
    }
}

/// The session number that a random word leads to.
pub fn session_id_from(draw: u32) -> (r: u32)
    ensures
        r == session_number(draw),
        r != 0,
{
    if draw == 0 {
        1
    } else {
        draw
    }
}

/// Picks a random session number, which is not zero: the number, and the frame
/// that opens the session.
pub fn open_session() -> (r: (u32, RdowsMessage))
    ensures
        r.0 != 0,
        r.1@ == connect_message(r.0),
{
    let session_id = session_id_from(random_word());
    (session_id, connect_frame(session_id))
}

/// The frame that opens session `session_id`.
pub fn connect_frame(session_id: u32) -> (r: RdowsMessage)
    ensures
        r@ == connect_message(session_id),
{
    let header = RdowsHeader::new(Opcode::Connect, session_id, 0, 0);
    let payload = ConnectPayload {
        pd: ProtectionDomain(1),
        capability_flags: 0,
        max_msg_size: DEFAULT_MAX_MSG_SIZE,
        icc: DEFAULT_ICC,
    };
    RdowsMessage::Connect(header, payload)
}

/// What the server's answer to CONNECT settles.
pub open spec fn connect_answer(session_id: u32, ack: RdowsMessage) -> Result<
    ConnectionParams,
    RdowsError,
> {
    match ack {
        RdowsMessage::ConnectAck(header, payload) => Ok(
            ConnectionParams {
                session_id,
                pd: payload.pd,
                max_msg_size: if payload.max_msg_size <= DEFAULT_MAX_MSG_SIZE {
                    payload.max_msg_size
                } else {
                    DEFAULT_MAX_MSG_SIZE
                },
                initial_remote_seq: frame::next_sequence(header.sequence),
                icc: payload.icc,
            },
        ),
        RdowsMessage::Error(_, err) => Err(RdowsError::Protocol(err.error_code)),
        _ => Err(
            RdowsError::UnexpectedMessage {
                expected: "CONNECT_ACK",
                got: ack.spec_header().opcode,
            },
        ),
    }
}

/// Takes in the server's answer to CONNECT.
pub fn connect_complete(session_id: u32, ack: RdowsMessage) -> (r: Result<
    ConnectionParams,
    RdowsError,
>)
    ensures
        r == connect_answer(session_id, ack),
{
    match ack {
        RdowsMessage::ConnectAck(header, payload) => {
            let max_msg_size = if payload.max_msg_size <= DEFAULT_MAX_MSG_SIZE {
                payload.max_msg_size
            } else {
                DEFAULT_MAX_MSG_SIZE
            };
            Ok(
                ConnectionParams {
                    session_id,
                    pd: payload.pd,
                    max_msg_size,
                    initial_remote_seq: header.sequence.wrapping_add(1),
                    icc: payload.icc,
                },
            )
        },
        RdowsMessage::Error(_, err) => Err(RdowsError::Protocol(err.error_code)),
        other => Err(
            RdowsError::UnexpectedMessage { expected: "CONNECT_ACK", got: other.header().opcode },
        ),
    }
}

/// What a client's socket brings.
pub enum SocketEvent {
    /// A binary message.
    Binary(Vec<u8>),
    /// A close message.
    Close,
    /// A text, ping or pong.
    Other,
    /// An error of the socket, in words.
    Failed(String),
    /// The end of the stream.
    Ended,
}

/// Takes in what the socket brings: the bytes of a frame, or nothing where the
/// caller waits on.
pub fn recv_message(event: SocketEvent) -> (r: Result<Option<Vec<u8>>, RdowsError>)
    ensures
        r == match event {
            SocketEvent::Binary(data) => Ok::<Option<Vec<u8>>, RdowsError>(Some(data)),
            SocketEvent::Other => Ok(None),
            SocketEvent::Close => Err(RdowsError::SessionClosed),
            SocketEvent::Ended => Err(RdowsError::SessionClosed),
            SocketEvent::Failed(e) => Err(RdowsError::WebSocket(e)),
        },
{
    match event {
        SocketEvent::Binary(data) => Ok(Some(data)),
        SocketEvent::Other => Ok(None),
        SocketEvent::Close => Err(RdowsError::SessionClosed),
        SocketEvent::Ended => Err(RdowsError::SessionClosed),
        SocketEvent::Failed(e) => Err(RdowsError::WebSocket(e)),
    }
}

/// A URL without TLS is refused before anything else is looked at; then a URL
/// that cannot be parsed, with the parser's words, and one without a host. Any
/// other leads to its host and its port, or the default port.
pub proof fn law_endpoint(
    url: Seq<char>,
    target: Result<(Option<Seq<char>>, Option<u16>), Seq<char>>,
    r: Result<Endpoint, RdowsError>,
)
    requires
        endpoint_result(url, target, r),
    ensures
        ({
            let plain = url.len() >= 5 && url[0] == 'w' && url[1] == 's' && url[2] == ':' && url[3]
                == '/' && url[4] == '/';
            &&& plain ==> (r matches Err(RdowsError::ConnectionRejected(why)) && why@
                == "TLS required: use wss:// not ws://"@)
            &&& !plain ==> match target {
                Err(e) => r matches Err(RdowsError::WebSocket(why)) && why@ == e,
                Ok((None, _)) => r matches Err(RdowsError::ConnectionRejected(why)) && why@
                    == "no host in URL"@,
                Ok((Some(host), Some(port))) => r matches Ok(e) && e.host@ == host && e.port
                    == port,
                Ok((Some(host), None)) => r matches Ok(e) && e.host@ == host && e.port == 443,
            }
        }),
{
    reveal_strlit("ws://");
    if url.len() >= 5 && url[0] == 'w' && url[1] == 's' && url[2] == ':' && url[3] == '/' && url[4]
        == '/' {
        assert("ws://"@ =~= url.subrange(0, 5));
    } else if without_tls(url) {
        assert(forall|i: int| 0 <= i < 5 ==> url[i] == "ws://"@[i]);
    }
}

/// A server name is accepted exactly where it has no fault; otherwise the error
/// says which.
pub proof fn law_server_name(fault: Option<Seq<char>>, r: Result<(), RdowsError>)
    requires
        server_name_result(fault, r),
    ensures
        r is Ok <==> fault is None,
        fault matches Some(e) ==> (r matches Err(RdowsError::Tls(why)) && why@
            == "invalid server name: "@ + e),
{
}

/// A session's number is the word that was drawn, unless that is zero; it never
/// is zero.
pub proof fn law_session_number(draw: u32)
    ensures
        draw != 0 ==> session_number(draw) == draw,
        session_number(draw) != 0,
{
}

/// The first frame of a session is number zero. It names the session, the
/// protection domain, the largest message and the credits.
pub proof fn law_first_frame(session_id: u32)
    ensures
        ({
            &&& connect_message(session_id) matches MessageModel::Connect(h, p)
            &&& h.version == 1
            &&& h.opcode == Opcode::Connect
            &&& h.flags == 0
            &&& h.session_id == session_id
            &&& h.sequence == 0
            &&& h.wrid == 0
            &&& h.payload_length == 0
            &&& p.pd.0 == 1
            &&& p.capability_flags == 0
            &&& p.max_msg_size == 0x100_0000
            &&& p.icc == 65_535
        }),
{
}

/// A CONNECT_ACK settles the session: its number is the one asked for, its domain
/// and credits are the server's, its message size is at most this side's, and the
/// server's next frame is the one after the answer. An ERROR frame is handed on,
/// and any other frame is an error.
pub proof fn law_connect_answer(session_id: u32, ack: RdowsMessage)
    ensures
        match ack {
            RdowsMessage::ConnectAck(h, p) => {
                &&& connect_answer(session_id, ack) matches Ok(params)
                &&& params.session_id == session_id
                &&& params.pd == p.pd
                &&& params.icc == p.icc
                &&& params.initial_remote_seq == (h.sequence + 1) % 0x1_0000_0000
                &&& params.max_msg_size == if p.max_msg_size < 0x100_0000 {
                    p.max_msg_size
                } else {
                    0x100_0000
                }
            },
            RdowsMessage::Error(_, p) => connect_answer(session_id, ack) == Err::<
                ConnectionParams,
                RdowsError,
            >(RdowsError::Protocol(p.error_code)),
            _ => connect_answer(session_id, ack) == Err::<ConnectionParams, RdowsError>(
                RdowsError::UnexpectedMessage {
                    expected: "CONNECT_ACK",
                    got: ack.spec_header().opcode,
                },
            ),
        },
{
}

/// `connect_to` refuses a URL without TLS, one that cannot be parsed and one
/// without a host, in this order; any other leads to its host and its port, or the
/// default port.
pub proof fn law_connect_to(
    url: &str,
    parts: Result<UrlParts, String>,
    r: Result<Endpoint, RdowsError>,
)
    requires
        call_ensures(connect_to, (url, parts), r),
    ensures
        ({
            let u = url@;
            let plain = u.len() >= 5 && u[0] == 'w' && u[1] == 's' && u[2] == ':' && u[3] == '/'
                && u[4] == '/';
            &&& plain ==> (r matches Err(RdowsError::ConnectionRejected(why)) && why@
                == "TLS required: use wss:// not ws://"@)
            &&& !plain ==> match parts {
                Err(e) => r matches Err(RdowsError::WebSocket(why)) && why@ == e@,
                Ok(p) => match p.host {
                    None => r matches Err(RdowsError::ConnectionRejected(why)) && why@
                        == "no host in URL"@,
                    Some(host) => {
                        &&& r matches Ok(e)
                        &&& e.host@ == host@
                        &&& p.port matches Some(port) ==> e.port == port
                        &&& p.port is None ==> e.port == 443
                    },
                },
            }
        }),
{
    law_endpoint(url@, target_view(parts), r);
}

/// `connect` does so with what the URL parses to.
pub proof fn law_connect(url: &str, r: Result<Endpoint, RdowsError>)
    requires
        call_ensures(connect, (url,), r),
    ensures
        r matches Ok(e) ==> (request_target(url@) matches Ok((Some(host), port)) && e.host@ == host
            && e.port == (match port {
            Some(p) => p,
            None => 443,
        })),
        r is Ok <==> (request_target(url@) matches Ok((Some(_), _)) && !"ws://"@.is_prefix_of(
            url@,
        )),
{
}

/// `accept_server_name` accepts a name without a fault, and otherwise says the
/// fault.
pub proof fn law_accept_server_name(fault: Option<String>, r: Result<(), RdowsError>)
    requires
        call_ensures(accept_server_name, (fault,), r),
    ensures
        r is Ok <==> fault is None,
        fault matches Some(e) ==> (r matches Err(RdowsError::Tls(why)) && why@
            == "invalid server name: "@ + e@),
{
}

/// `check_echo` accepts the server's answer exactly where it names the
/// subprotocol.
pub proof fn law_check_echo(value: Option<&[u8]>, r: Result<(), RdowsError>)
    requires
        call_ensures(check_echo, (value,), r),
    ensures
        r is Ok <==> (value matches Some(v) && crate::subprotocol::names(v@)),
        r is Err ==> (r matches Err(RdowsError::ConnectionRejected(why)) && why@
            == "server did not echo rdows.v1 subprotocol"@),
{
}

/// A session's first frame names the session, is number zero and says what this
/// side offers; the session's number is the word drawn, or one.
pub proof fn law_session_opens(
    draw: u32,
    id: u32,
    frame: RdowsMessage,
    opened: (u32, RdowsMessage),
)
    requires
        call_ensures(session_id_from, (draw,), id),
        call_ensures(connect_frame, (id,), frame),
        call_ensures(open_session, (), opened),
    ensures
        id == if draw == 0 {
            1
        } else {
            draw
        },
        opened.0 != 0,
        opens(frame, id),
        opens(opened.1, opened.0),
{
}

/// `frame` is the CONNECT frame of session `id`.
pub open spec fn opens(frame: RdowsMessage, id: u32) -> bool {
    &&& frame matches RdowsMessage::Connect(h, p)
    &&& h == (RdowsHeader {
        version: 1,
        opcode: Opcode::Connect,
        flags: 0,
        session_id: id,
        sequence: 0,
        wrid: 0,
        payload_length: 0,
    })
    &&& p == (ConnectPayload {
        pd: ProtectionDomain(1),
        capability_flags: 0,
        max_msg_size: 0x100_0000,
        icc: 65_535,
    })
}

/// `connect_complete` takes over what the server's answer settles.
pub proof fn law_connect_complete(
    session_id: u32,
    ack: RdowsMessage,
    r: Result<ConnectionParams, RdowsError>,
)
    requires
        call_ensures(connect_complete, (session_id, ack), r),
    ensures
        match ack {
            RdowsMessage::ConnectAck(h, p) => {
                &&& r matches Ok(params)
                &&& params.session_id == session_id
                &&& params.pd == p.pd
                &&& params.icc == p.icc
                &&& params.initial_remote_seq == (h.sequence + 1) % 0x1_0000_0000
                &&& params.max_msg_size == if p.max_msg_size < 0x100_0000 {
                    p.max_msg_size
                } else {
                    0x100_0000
                }
            },
            RdowsMessage::Error(_, p) => r == Err::<ConnectionParams, RdowsError>(
                RdowsError::Protocol(p.error_code),
            ),
            _ => r == Err::<ConnectionParams, RdowsError>(
                RdowsError::UnexpectedMessage {
                    expected: "CONNECT_ACK",
                    got: ack@.header().opcode,
                },
            ),
        },
{
}

/// `recv_message` hands on the bytes of a binary message, waits on after a text,
/// ping or pong, and ends with the session or the socket's error.
pub proof fn law_recv_message(event: SocketEvent, r: Result<Option<Vec<u8>>, RdowsError>)
    requires
        call_ensures(recv_message, (event,), r),
    ensures
        event matches SocketEvent::Binary(data) ==> r == Ok::<Option<Vec<u8>>, RdowsError>(
            Some(data),
        ),
        event is Other ==> r == Ok::<Option<Vec<u8>>, RdowsError>(None),
        event is Close || event is Ended ==> r == Err::<Option<Vec<u8>>, RdowsError>(
            RdowsError::SessionClosed,
        ),
        event matches SocketEvent::Failed(e) ==> r == Err::<Option<Vec<u8>>, RdowsError>(
            RdowsError::WebSocket(e),
        ),
{
}

} // verus!
