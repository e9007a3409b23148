use vstd::prelude::*;
use vstd::string::StrSliceExecFns;

use crate::error::SocketIoError;
use crate::socket_io_message::{
    decode_message, field_name_of, message_encodable, message_result_view, message_wire,
    opt_string_view, MessageView, SocketIoMessage,
};
use crate::text::{push_char, push_str};

verus! {

/// A transport frame.
#[derive(Debug)]
pub enum SocketIoProtocol {
    Open,
    Close,
    Ping { with_probe: bool },
    Pong { with_probe: bool },
    Message(SocketIoMessage),
    Upgrade,
    Noop,
}

/// The mathematical value of a transport frame.
pub enum FrameView {
    Open,
    Close,
    Ping { with_probe: bool },
    Pong { with_probe: bool },
    Message(MessageView),
    Upgrade,
    Noop,
}

impl View for SocketIoProtocol {
    type V = FrameView;

    open spec fn view(&self) -> FrameView {
        match self {
            SocketIoProtocol::Open => FrameView::Open,
            SocketIoProtocol::Close => FrameView::Close,
            SocketIoProtocol::Ping { with_probe } => FrameView::Ping { with_probe: *with_probe },
            SocketIoProtocol::Pong { with_probe } => FrameView::Pong { with_probe: *with_probe },
            SocketIoProtocol::Message(m) => FrameView::Message(m@),
            SocketIoProtocol::Upgrade => FrameView::Upgrade,
            SocketIoProtocol::Noop => FrameView::Noop,
        }
    }
}

/// The probe marker of a heartbeat, or nothing.
pub open spec fn probe_wire(with_probe: bool) -> Seq<char> {
    if with_probe {
        "probe"@
    } else {
        seq![]
    }
}

/// Whether a frame has a text form.
pub open spec fn frame_encodable(f: FrameView) -> bool {
    match f {
        FrameView::Message(m) => message_encodable(m),
        _ => true,
    }
}

/// The wire text of an encodable frame: its type digit, then a probe marker
/// or the message it carries.
pub open spec fn frame_wire(f: FrameView) -> Seq<char> {
    match f {
        FrameView::Open => seq!['0'],
        FrameView::Close => seq!['1'],
        FrameView::Ping { with_probe } => seq!['2'] + probe_wire(with_probe),
        FrameView::Pong { with_probe } => seq!['3'] + probe_wire(with_probe),
        FrameView::Message(m) => seq!['4'] + message_wire(m),
        FrameView::Upgrade => seq!['5'],
        FrameView::Noop => seq!['6'],
    }
}

/// The name of the payload field that the message inside the frame `s`
/// carries, if `s` is a message frame.
pub open spec fn frame_field_name(s: Seq<char>) -> Option<Seq<char>> {
    if s.len() > 0 && s[0] == '4' {
        field_name_of(s.drop_first())
    } else {
        None
    }
}

/// The frame that the text `s` decodes to; `field` is passed on to the
/// message that a message frame carries.
pub open spec fn decode_frame(s: Seq<char>, field: Option<Seq<char>>) -> Result<
    FrameView,
    SocketIoError,
> {
    if s.len() == 0 {
        Err(SocketIoError::EmptyInput)
    } else {
        let c = s[0];
        if c == '0' {
            Ok(FrameView::Open)
        } else if c == '1' {
            Ok(FrameView::Close)
        } else if c == '2' {
            Ok(FrameView::Ping { with_probe: s.len() > 1 })
        } else if c == '3' {
            Ok(FrameView::Pong { with_probe: s.len() > 1 })
        } else if c == '4' {
            match decode_message(s.drop_first(), field) {
                Ok(m) => Ok(FrameView::Message(m)),
                Err(e) => Err(e),
            }
        } else if c == '5' {
            Ok(FrameView::Upgrade)
        } else if c == '6' {
            Ok(FrameView::Noop)
        } else {
            Err(SocketIoError::UnknownFrameType)
        }
    }
}

pub open spec fn frame_result_view(r: Result<SocketIoProtocol, SocketIoError>) -> Result<
    FrameView,
    SocketIoError,
> {
    match r {
        Ok(f) => Ok(f@),
        Err(e) => Err(e),
    }
}

/// The field lookup that the message inside the frame `src` needs, if any:
/// the field's name and the payload object to read it from.
pub fn frame_payload_field(src: &str) -> (r: Option<(&'static str, &str)>)
    ensures
        match r {
            Some((name, data)) => frame_field_name(src@) == Some(name@) && src@.len() > 0
                && crate::payload_deserializer::parse_header(src@.drop_first().drop_first()).data
                == Some(data@),
            None => frame_field_name(src@) is None || crate::payload_deserializer::parse_header(
                src@.drop_first().drop_first(),
            ).data is None,
        },
{
    let len = src.unicode_len();
    if len == 0 {
        return None;
    }
    if src.get_char(0) != '4' {
        return None;
    }
    let rest = src.substring_char(1, len);
    proof {
        assert(rest@ =~= src@.drop_first());
    }
    SocketIoMessage::payload_field(rest)
}

/// Appends the probe marker to `out` when `with_probe` is set.
pub(crate) fn serialize_probe(out: &mut String, with_probe: bool)
    ensures
        final(out)@ == old(out)@ + probe_wire(with_probe),
{
    if with_probe {
        push_str(out, "probe");
    } else {
        proof {
            assert(out@ =~= old(out)@ + probe_wire(with_probe));
        }
    }
}

impl SocketIoProtocol {
    /// Decodes a frame. `field` is what a JSON reader found under the name
    /// that `frame_payload_field` gives; it matters only for a message frame
    /// that carries a connect or a connect error.
    pub fn deserialize(src: &str, field: Option<String>) -> (r: Result<Self, SocketIoError>)
        ensures
            frame_result_view(r) == decode_frame(src@, opt_string_view(field)),
    {
        let len = src.unicode_len();
        if len == 0 {
            return Err(SocketIoError::EmptyInput);
        }
        let first_char = src.get_char(0);
        if first_char == '0' {
            Ok(Self::Open)
        } else if first_char == '1' {
            Ok(Self::Close)
        } else if first_char == '2' {
            Ok(SocketIoProtocol::Ping { with_probe: len > 1 })
        } else if first_char == '3' {
            Ok(SocketIoProtocol::Pong { with_probe: len > 1 })
        } else if first_char == '4' {
            let rest = src.substring_char(1, len);
            proof {
                assert(rest@ =~= src@.drop_first());
            }
            match SocketIoMessage::deserialize(rest, field) {
                Ok(msg) => Ok(SocketIoProtocol::Message(msg)),
                Err(e) => Err(e),
            }
        } else if first_char == '5' {
            Ok(SocketIoProtocol::Upgrade)
        } else if first_char == '6' {
            Ok(SocketIoProtocol::Noop)
        } else {
            Err(SocketIoError::UnknownFrameType)
        }
    }

    /// Encodes the frame onto `out`. A message with a binary parameter has no
    /// text form: then nothing is written.
    pub fn serialize(&self, out: &mut String) -> (r: Result<(), SocketIoError>)
        ensures
            r is Ok <==> frame_encodable(self@),
            r is Ok ==> final(out)@ == old(out)@ + frame_wire(self@),
            r matches Err(e) ==> e == SocketIoError::UnsupportedFeature && *final(out) == *old(
                out,
            ),
    {
        match self {
            SocketIoProtocol::Open => {
                push_char(out, '0');
            },
            SocketIoProtocol::Close => {
                push_char(out, '1');
            },
            SocketIoProtocol::Ping { with_probe } => {
                push_char(out, '2');
                serialize_probe(out, *with_probe);
            },
            SocketIoProtocol::Pong { with_probe } => {
                push_char(out, '3');
                serialize_probe(out, *with_probe);
            },
            SocketIoProtocol::Message(msg) => {
                let mut payload = crate::payload_serializer::SocketIoPayload::new();
                match msg.serialize(&mut payload) {
                    Ok(()) => {},
                    Err(e) => {
                        return Err(e);
                    },
                }
                push_char(out, '4');
                push_str(out, payload.text_frame.as_str());
            },
            SocketIoProtocol::Upgrade => {
                push_char(out, '5');
            },
            SocketIoProtocol::Noop => {
                push_char(out, '6');
            },
        }
        proof {
            assert(out@ =~= old(out)@ + frame_wire(self@));
        }
        Ok(())
    }
}

} // verus!
