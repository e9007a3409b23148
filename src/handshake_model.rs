use vstd::prelude::*;
use vstd::string::StrSliceExecFns;
use vstd::utf8::encode_utf8;

use crate::socket_io_settings::SocketIoSettings;
use crate::text::{decimal, push_decimal, push_str};

verus! {

/// What the server announces in the open frame of a connection.
#[derive(Debug, Clone)]
pub struct SocketIoHandshakeOpenModel {
    pub sid: String,
    pub upgrades: Vec<String>,
    /// In milliseconds.
    pub ping_interval: u64,
    /// In milliseconds.
    pub ping_timeout: u64,
    /// In bytes.
    pub max_payload: u64,
}

impl SocketIoHandshakeOpenModel {
    /// The announcement for the connection `sid` under `socket_io_settings`;
    /// the only upgrade offered is `websocket`.
    pub fn from_settings(sid: String, socket_io_settings: &SocketIoSettings) -> (r: Self)
        ensures
            r.sid@ == sid@,
            r.upgrades@.len() == 1,
            r.upgrades@[0]@ == "websocket"@,
            r.ping_interval == socket_io_settings.ping_interval_millis,
            r.ping_timeout == socket_io_settings.ping_timeout_millis,
            r.max_payload == socket_io_settings.max_payload_size as u64,
    {
        let upgrades = vec!["websocket".to_owned()];
        Self {
            sid,
            upgrades,
            ping_interval: socket_io_settings.ping_interval_millis,
            ping_timeout: socket_io_settings.ping_timeout_millis,
            max_payload: socket_io_settings.max_payload_size as u64,
        }
    }
}

/// The connect message that grants the session `sid` on the default
/// namespace: `40{"sid":"<sid>"}`.
pub open spec fn connect_payload_text(sid: Seq<char>) -> Seq<char> {
    "40{\"sid\":\""@ + sid + "\"}"@
}

/// The open frame that answers a handshake:
/// `0{"sid":"<sid>","upgrades":["websocket"],"pingInterval":<ms>,"pingTimeout":<ms>,"maxPayload":<bytes>}`.
pub open spec fn negotiate_response_text(
    sid: Seq<char>,
    ping_interval: nat,
    ping_timeout: nat,
    max_payload: nat,
) -> Seq<char> {
    "0{\"sid\":\""@ + sid + "\",\"upgrades\":[\"websocket\"],\"pingInterval\":"@ + decimal(
        ping_interval,
    ) + ",\"pingTimeout\":"@ + decimal(ping_timeout) + ",\"maxPayload\":"@ + decimal(
        max_payload,
    ) + "}"@
}

/// The UTF-8 bytes of the connect message for `sid`.
pub fn compile_connect_payload(sid: &str) -> (r: Vec<u8>)
    ensures
        r@ == encode_utf8(connect_payload_text(sid@)),
{
    let mut content = String::new();
    push_str(&mut content, "40{\"sid\":\"");
    push_str(&mut content, sid);
    push_str(&mut content, "\"}");
    proof {
        assert(content@ =~= connect_payload_text(sid@));
    }
    content.as_str().as_bytes_vec()
}

/// The open frame that announces the session `sid` and the limits of
/// `socket_io_settings`.
pub fn compile_negotiate_response(sid: &str, socket_io_settings: &SocketIoSettings) -> (r: String)
    ensures
        r@ == negotiate_response_text(
            sid@,
            socket_io_settings.ping_interval_millis as nat,
            socket_io_settings.ping_timeout_millis as nat,
            socket_io_settings.max_payload_size as nat,
        ),
{
    let mut result = String::new();
    push_str(&mut result, "0{\"sid\":\"");
    push_str(&mut result, sid);
    push_str(&mut result, "\",\"upgrades\":[\"websocket\"],\"pingInterval\":");
    push_decimal(&mut result, socket_io_settings.get_ping_interval());
    push_str(&mut result, ",\"pingTimeout\":");
    push_decimal(&mut result, socket_io_settings.get_ping_timeout());
    push_str(&mut result, ",\"maxPayload\":");
    push_decimal(&mut result, socket_io_settings.get_max_payload_size() as u64);
    push_str(&mut result, "}");
    proof {
        assert(result@ =~= negotiate_response_text(
            sid@,
            socket_io_settings.ping_interval_millis as nat,
            socket_io_settings.ping_timeout_millis as nat,
            socket_io_settings.max_payload_size as nat,
        ));
    }
    result
}

} // verus!
