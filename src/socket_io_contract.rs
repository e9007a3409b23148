use vstd::prelude::*;
use vstd::string::StrSliceExecFns;

use crate::error::SocketIoError;
use crate::payload_serializer::SocketIoPayload;
use crate::socket_io_message::{opt_string_view, SocketIoMessage};
use crate::socket_io_protocol::{decode_frame, frame_encodable, frame_wire, serialize_probe, FrameView};
use crate::text::{push_char, push_str};

verus! {

/// A transport frame that serializes into a `SocketIoPayload`.
#[derive(Debug)]
pub enum SocketIoWsContract {
    Open,
    Close,
    Ping { with_probe: bool },
    Pong { with_probe: bool },
    Message(SocketIoMessage),
    Upgrade,
    Noop,
}

impl View for SocketIoWsContract {
    type V = FrameView;

    open spec fn view(&self) -> FrameView {
        match self {
            SocketIoWsContract::Open => FrameView::Open,
            SocketIoWsContract::Close => FrameView::Close,
            SocketIoWsContract::Ping { with_probe } => FrameView::Ping { with_probe: *with_probe },
            SocketIoWsContract::Pong { with_probe } => FrameView::Pong { with_probe: *with_probe },
            SocketIoWsContract::Message(m) => FrameView::Message(m@),
            SocketIoWsContract::Upgrade => FrameView::Upgrade,
            SocketIoWsContract::Noop => FrameView::Noop,
        }
    }
}

pub open spec fn contract_result_view(r: Result<SocketIoWsContract, SocketIoError>) -> Result<
    FrameView,
    SocketIoError,
> {
    match r {
        Ok(f) => Ok(f@),
        Err(e) => Err(e),
    }
}

impl SocketIoWsContract {
    /// Decodes a frame; `field` is as for `SocketIoProtocol::deserialize`.
    pub fn deserialize(src: &str, field: Option<String>) -> (r: Result<Self, SocketIoError>)
        ensures
            contract_result_view(r) == decode_frame(src@, opt_string_view(field)),
    {
        let len = src.unicode_len();
        if len == 0 {
            return Err(SocketIoError::EmptyInput);
        }
        let first_char = src.get_char(0);
        if first_char == '0' {
            Ok(Self::Open)
        } else if first_char == '1' {
            Ok(Self::Close)
        } else if first_char == '2' {
            Ok(SocketIoWsContract::Ping { with_probe: len > 1 })
        } else if first_char == '3' {
            Ok(SocketIoWsContract::Pong { with_probe: len > 1 })
        } else if first_char == '4' {
            let rest = src.substring_char(1, len);
            proof {
                assert(rest@ =~= src@.drop_first());
            }
            match SocketIoMessage::deserialize(rest, field) {
                Ok(msg) => Ok(SocketIoWsContract::Message(msg)),
                Err(e) => Err(e),
            }
        } else if first_char == '5' {
            Ok(SocketIoWsContract::Upgrade)
        } else if first_char == '6' {
            Ok(SocketIoWsContract::Noop)
        } else {
            Err(SocketIoError::UnknownFrameType)
        }
    }

    /// Encodes the frame onto `out.text_frame`. A message with a binary
    /// parameter has no text form: then nothing is written.
    pub fn serialize(&self, out: &mut SocketIoPayload) -> (r: Result<(), SocketIoError>)
        ensures
            r is Ok <==> frame_encodable(self@),
            r is Ok ==> final(out).text_frame@ == old(out).text_frame@ + frame_wire(self@),
            r matches Err(e) ==> e == SocketIoError::UnsupportedFeature && final(out).text_frame
                == old(out).text_frame,
            final(out).binary_frames == old(out).binary_frames,
    {
        match self {
            SocketIoWsContract::Open => {
                push_char(&mut out.text_frame, '0');
            },
            SocketIoWsContract::Close => {
                push_char(&mut out.text_frame, '1');
            },
            SocketIoWsContract::Ping { with_probe } => {
                push_char(&mut out.text_frame, '2');
                serialize_probe(&mut out.text_frame, *with_probe);
            },
            SocketIoWsContract::Pong { with_probe } => {
                push_char(&mut out.text_frame, '3');
                serialize_probe(&mut out.text_frame, *with_probe);
            },
            SocketIoWsContract::Message(msg) => {
                let mut payload = SocketIoPayload::new();
                match msg.serialize(&mut payload) {
                    Ok(()) => {},
                    Err(e) => {
                        return Err(e);
                    },
                }
                push_char(&mut out.text_frame, '4');
                push_str(&mut out.text_frame, payload.text_frame.as_str());
            },
            SocketIoWsContract::Upgrade => {
                push_char(&mut out.text_frame, '5');
            },
            SocketIoWsContract::Noop => {
                push_char(&mut out.text_frame, '6');
            },
        }
        proof {
            assert(out.text_frame@ =~= old(out).text_frame@ + frame_wire(self@));
        }
        Ok(())
    }
}

} // verus!
