use vstd::prelude::*;
use vstd::string::StrSliceExecFns;

use crate::my_socket_io_text_payload::{
    opt_view, parse_text_payload, MySocketIoTextPayload,
};
use crate::text::{push_char, push_str};

verus! {

/// The session granted to a client, and the namespace it was granted on.
#[derive(Debug, Clone, PartialEq, Eq)]
pub struct GrandAccessData {
    pub nsp: Option<String>,
    pub sid: String,
}

/// An older-style message frame, type digits included.
#[derive(Debug, Clone, PartialEq, Eq)]
pub enum MySocketIoMessage {
    Ping,
    Pong,
    Disconnect,
    Message(MySocketIoTextPayload),
    Ack(MySocketIoTextPayload),
    RequestAccess(Option<String>),
    GrandAccess(GrandAccessData),
}

/// A namespace and its comma, or nothing.
pub open spec fn nsp_prefix(nsp: Option<Seq<char>>) -> Seq<char> {
    match nsp {
        Some(n) => n + seq![','],
        None => seq![],
    }
}

/// The wire text of an older-style frame.
pub open spec fn my_message_text(m: MySocketIoMessage) -> Seq<char> {
    match m {
        MySocketIoMessage::Ping => "2"@,
        MySocketIoMessage::Pong => "3"@,
        MySocketIoMessage::Disconnect => "41"@,
        MySocketIoMessage::Message(p) => "42"@ + p.text(),
        MySocketIoMessage::Ack(p) => "43"@ + p.text(),
        MySocketIoMessage::RequestAccess(nsp) => "40"@ + nsp_prefix(opt_view(nsp)),
        MySocketIoMessage::GrandAccess(d) => "40"@ + nsp_prefix(opt_view(d.nsp))
            + "{\"sid\":\""@ + d.sid@ + "\"}"@,
    }
}

/// Whether `s` starts with the two characters `a` and `b`.
pub open spec fn starts_with2(s: Seq<char>, a: char, b: char) -> bool {
    s.len() >= 2 && s[0] == a && s[1] == b
}

fn push_nsp(out: &mut String, nsp: &Option<String>)
    ensures
        final(out)@ == old(out)@ + nsp_prefix(opt_view(*nsp)),
{
    match nsp {
        Some(n) => {
            push_str(out, n.as_str());
            push_char(out, ',');
        },
        None => {},
    }
    proof {
        assert(out@ =~= old(out)@ + nsp_prefix(opt_view(*nsp)));
    }
}

impl MySocketIoMessage {
    /// The frame's wire text.
    pub fn as_str(&self) -> (r: String)
        ensures
            r@ == my_message_text(*self),
    {
        let mut result = String::new();
        match self {
            MySocketIoMessage::Ping => push_str(&mut result, "2"),
            MySocketIoMessage::Pong => push_str(&mut result, "3"),
            MySocketIoMessage::Disconnect => push_str(&mut result, "41"),
            MySocketIoMessage::Message(msg) => {
                push_str(&mut result, "42");
                msg.write_to(&mut result);
            },
            MySocketIoMessage::Ack(msg) => {
                push_str(&mut result, "43");
                msg.write_to(&mut result);
            },
            MySocketIoMessage::RequestAccess(nsp) => {
                push_str(&mut result, "40");
                push_nsp(&mut result, nsp);
            },
            MySocketIoMessage::GrandAccess(data) => {
                push_str(&mut result, "40");
                push_nsp(&mut result, &data.nsp);
                push_str(&mut result, "{\"sid\":\"");
                push_str(&mut result, data.sid.as_str());
                push_str(&mut result, "\"}");
            },
        }
        proof {
            assert(result@ =~= my_message_text(*self));
        }
        result
    }

    /// Reads a frame: `42` and `43` carry a payload (both are read as a
    /// message), `40` requests access to the namespace that follows, up to
    /// its last character. Anything else, or a payload that does not parse,
    /// gives `None`.
    pub fn parse(str: &str) -> (r: Option<Self>)
        ensures
            (starts_with2(str@, '4', '2') || starts_with2(str@, '4', '3')) ==> match r {
                Some(MySocketIoMessage::Message(p)) => parse_text_payload(str@) == Some(
                    (opt_view(p.nsp), p.data@, opt_view(p.id)),
                ),
                None => parse_text_payload(str@) is None,
                _ => false,
            },
            starts_with2(str@, '4', '0') ==> match r {
                Some(MySocketIoMessage::RequestAccess(None)) => str@.len() == 2,
                Some(MySocketIoMessage::RequestAccess(Some(n))) => str@.len() > 2 && n@
                    == str@.subrange(2, str@.len() - 1),
                _ => false,
            },
            !(starts_with2(str@, '4', '2') || starts_with2(str@, '4', '3') || starts_with2(
                str@,
                '4',
                '0',
            )) ==> r is None,
    {
        let len = str.unicode_len();
        if len < 2 || str.get_char(0) != '4' {
            return None;
        }
        let second = str.get_char(1);
        if second == '2' || second == '3' {
            return match MySocketIoTextPayload::parse(str) {
                Some(p) => Some(Self::Message(p)),
                None => None,
            };
        }
        if second == '0' {
            if len == 2 {
                return Some(Self::RequestAccess(None));
            }
            return Some(Self::RequestAccess(Some(str.substring_char(2, len - 1).to_owned())));
        }
        None
    }
}

} // verus!
