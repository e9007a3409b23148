use vstd::prelude::*;
use vstd::string::StrSliceExecFns;

use crate::error::SocketIoError;
use crate::payload_deserializer::{
    deserialize_data, deserialize_event_data, header_fits, parse_header, SocketIoPayloadData,
};
use crate::payload_serializer::{
    data_wire, event_wire, opt_u64_view, serialize_data, serialize_event_data, SocketIoPayload,
};
use crate::socket_id_data_serializer::{all_text, param_texts};
use crate::socket_io_data::{
    params_view, text_params, tokenize, views_all_text, views_texts, ParameterView,
    SocketIoEventParameter,
};
use crate::text::{push_char, push_str};

verus! {

/// An application message, carried inside a transport message frame.
///
/// Events and acknowledgements carry one flat list of parameters; where an
/// application names its events, the name is the first parameter. The same
/// holds for acknowledgements.
#[derive(Debug)]
pub enum SocketIoMessage {
    Connect { namespace: String, sid: Option<String> },
    Disconnect { namespace: String },
    Event { namespace: String, parameters: Vec<SocketIoEventParameter>, ack: Option<u64> },
    /// An acknowledgement always has an ack id.
    Ack { namespace: String, parameters: Vec<SocketIoEventParameter>, ack: u64 },
    ConnectError { namespace: String, message: String },
}

/// The mathematical value of a message.
pub enum MessageView {
    Connect { namespace: Seq<char>, sid: Option<Seq<char>> },
    Disconnect { namespace: Seq<char> },
    Event { namespace: Seq<char>, parameters: Seq<ParameterView>, ack: Option<nat> },
    Ack { namespace: Seq<char>, parameters: Seq<ParameterView>, ack: nat },
    ConnectError { namespace: Seq<char>, message: Seq<char> },
}

pub open spec fn opt_string_view(s: Option<String>) -> Option<Seq<char>> {
    match s {
        Some(s) => Some(s@),
        None => None,
    }
}

impl View for SocketIoMessage {
    type V = MessageView;

    open spec fn view(&self) -> MessageView {
        match self {
            SocketIoMessage::Connect { namespace, sid } => MessageView::Connect {
                namespace: namespace@,
                sid: opt_string_view(*sid),
            },
            SocketIoMessage::Disconnect { namespace } => MessageView::Disconnect {
                namespace: namespace@,
            },
            SocketIoMessage::Event { namespace, parameters, ack } => MessageView::Event {
                namespace: namespace@,
                parameters: params_view(parameters@),
                ack: opt_u64_view(*ack),
            },
            SocketIoMessage::Ack { namespace, parameters, ack } => MessageView::Ack {
                namespace: namespace@,
                parameters: params_view(parameters@),
                ack: *ack as nat,
            },
            SocketIoMessage::ConnectError { namespace, message } => MessageView::ConnectError {
                namespace: namespace@,
                message: message@,
            },
        }
    }
}

/// The namespace a message is addressed to.
pub open spec fn namespace_of(m: MessageView) -> Seq<char> {
    match m {
        MessageView::Connect { namespace, .. } => namespace,
        MessageView::Disconnect { namespace } => namespace,
        MessageView::Event { namespace, .. } => namespace,
        MessageView::Ack { namespace, .. } => namespace,
        MessageView::ConnectError { namespace, .. } => namespace,
    }
}

/// Whether a message has a text form: events and acknowledgements must carry
/// string parameters only.
pub open spec fn message_encodable(m: MessageView) -> bool {
    match m {
        MessageView::Event { parameters, .. } => views_all_text(parameters),
        MessageView::Ack { parameters, .. } => views_all_text(parameters),
        _ => true,
    }
}

/// The wire text of an encodable message: type digit, namespace prefix, then
/// the payload of its kind.
pub open spec fn message_wire(m: MessageView) -> Seq<char> {
    match m {
        MessageView::Connect { namespace, sid } => seq!['0'] + data_wire(
            namespace,
            match sid {
                Some(s) => Some(("sid"@, s)),
                None => None,
            },
        ),
        MessageView::Disconnect { namespace } => seq!['1'] + data_wire(namespace, None),
        MessageView::Event { namespace, parameters, ack } => seq!['2'] + event_wire(
            namespace,
            views_texts(parameters),
            ack,
        ),
        MessageView::Ack { namespace, parameters, ack } => seq!['3'] + event_wire(
            namespace,
            views_texts(parameters),
            Some(ack),
        ),
        MessageView::ConnectError { namespace, message } => seq!['4'] + data_wire(
            namespace,
            Some(("message"@, message)),
        ),
    }
}

/// The name of the payload field that a message of the kind `s` starts with
/// carries: `sid` for a connect, `message` for a connect error.
pub open spec fn field_name_of(s: Seq<char>) -> Option<Seq<char>> {
    if s.len() > 0 && s[0] == '0' {
        Some("sid"@)
    } else if s.len() > 0 && s[0] == '4' {
        Some("message"@)
    } else {
        None
    }
}

/// The message of a connect error whose payload has no `message` field.
pub open spec fn unknown_message(data: Seq<char>) -> Seq<char> {
    "Unknown (no message found in data) ["@ + data + "]"@
}

/// The parameters of an event payload: its quoted strings.
pub open spec fn params_of(data: Option<Seq<char>>) -> Seq<ParameterView> {
    text_params(
        tokenize(
            match data {
                Some(d) => d,
                None => seq![],
            },
        ),
    )
}

/// The message that the text `s` decodes to. `field` is what a JSON reader
/// found, in the header's payload, under the name `field_name_of(s)`; it is
/// consulted only where the header has a payload.
pub open spec fn decode_message(s: Seq<char>, field: Option<Seq<char>>) -> Result<
    MessageView,
    SocketIoError,
> {
    if s.len() == 0 {
        Err(SocketIoError::EmptyInput)
    } else {
        let h = parse_header(s.drop_first());
        let c = s[0];
        if c == '0' {
            Ok(
                MessageView::Connect {
                    namespace: h.namespace,
                    sid: if h.data is Some {
                        field
                    } else {
                        None
                    },
                },
            )
        } else if c == '1' {
            Ok(MessageView::Disconnect { namespace: h.namespace })
        } else if c == '2' {
            if !header_fits(h) {
                Err(SocketIoError::MalformedHeader)
            } else {
                Ok(
                    MessageView::Event {
                        namespace: h.namespace,
                        parameters: params_of(h.data),
                        ack: h.ack,
                    },
                )
            }
        } else if c == '3' {
            if h.ack is None {
                Err(SocketIoError::MissingAck)
            } else if !header_fits(h) {
                Err(SocketIoError::MalformedHeader)
            } else {
                Ok(
                    MessageView::Ack {
                        namespace: h.namespace,
                        parameters: params_of(h.data),
                        ack: h.ack->0,
                    },
                )
            }
        } else if c == '4' {
            Ok(
                MessageView::ConnectError {
                    namespace: h.namespace,
                    message: match (h.data, field) {
                        (Some(_), Some(f)) => f,
                        (Some(d), None) => unknown_message(d),
                        (None, _) => unknown_message(seq![]),
                    },
                },
            )
        } else {
            Err(SocketIoError::UnknownMessageType)
        }
    }
}

pub open spec fn message_result_view(r: Result<SocketIoMessage, SocketIoError>) -> Result<
    MessageView,
    SocketIoError,
> {
    match r {
        Ok(m) => Ok(m@),
        Err(e) => Err(e),
    }
}

impl SocketIoMessage {
    pub fn get_namespace(&self) -> (r: &str)
        ensures
            r@ == namespace_of(self@),
    {
        match self {
            SocketIoMessage::Connect { namespace, .. } => namespace.as_str(),
            SocketIoMessage::Disconnect { namespace, .. } => namespace.as_str(),
            SocketIoMessage::Event { namespace, .. } => namespace.as_str(),
            SocketIoMessage::Ack { namespace, .. } => namespace.as_str(),
            SocketIoMessage::ConnectError { namespace, .. } => namespace.as_str(),
        }
    }

    /// Which payload field a JSON reader must look up before `value` can be
    /// decoded, and the payload object to look it up in. `None` where the
    /// message needs no field or has no payload.
    pub fn payload_field(value: &str) -> (r: Option<(&'static str, &str)>)
        ensures
            match r {
                Some((name, data)) => field_name_of(value@) == Some(name@) && parse_header(
                    value@.drop_first(),
                ).data == Some(data@),
                None => field_name_of(value@) is None || parse_header(
                    value@.drop_first(),
                ).data is None,
            },
    {
        let len = value.unicode_len();
        if len == 0 {
            return None;
        }
        let c = value.get_char(0);
        if c != '0' && c != '4' {
            return None;
        }
        let rest = value.substring_char(1, len);
        proof {
            assert(rest@ =~= value@.drop_first());
        }
        let payload = deserialize_data(rest);
        match payload.data {
            Some(data) => {
                if c == '0' {
                    Some(("sid", data))
                } else {
                    Some(("message", data))
                }
            },
            None => None,
        }
    }

    /// Decodes a message. `field` is what a JSON reader found in the payload
    /// under the name that `payload_field` gives; it is used only for a
    /// connect (its `sid`) or a connect error (its `message`) with a payload.
    pub fn deserialize(value: &str, field: Option<String>) -> (r: Result<
        SocketIoMessage,
        SocketIoError,
    >)
        ensures
            message_result_view(r) == decode_message(value@, opt_string_view(field)),
    {
        let len = value.unicode_len();
        if len == 0 {
            return Err(SocketIoError::EmptyInput);
        }
        let first_char = value.get_char(0);
        let rest = value.substring_char(1, len);
        proof {
            assert(rest@ =~= value@.drop_first());
        }
        if first_char == '0' {
            let payload_data = deserialize_data(rest);
            let sid = match payload_data.data {
                Some(_) => field,
                None => None,
            };
            Ok(
                SocketIoMessage::Connect {
                    namespace: payload_data.namespace.to_owned(),
                    sid,
                },
            )
        } else if first_char == '1' {
            let payload_data = deserialize_data(rest);
            Ok(SocketIoMessage::Disconnect { namespace: payload_data.namespace.to_owned() })
        } else if first_char == '2' {
            let payload_data = match deserialize_event_data(rest) {
                Ok(d) => d,
                Err(e) => {
                    return Err(e);
                },
            };
            let parameters = Self::parameters_of(&payload_data);
            Ok(
                SocketIoMessage::Event {
                    namespace: payload_data.namespace.to_owned(),
                    parameters,
                    ack: payload_data.ack,
                },
            )
        } else if first_char == '3' {
            let payload_data = match deserialize_event_data(rest) {
                Ok(d) => d,
                Err(e) => {
                    return Err(e);
                },
            };
            let ack = match payload_data.ack {
                Some(ack) => ack,
                None => {
                    return Err(SocketIoError::MissingAck);
                },
            };
            let parameters = Self::parameters_of(&payload_data);
            Ok(
                SocketIoMessage::Ack {
                    namespace: payload_data.namespace.to_owned(),
                    parameters,
                    ack,
                },
            )
        } else if first_char == '4' {
            let payload_data = deserialize_data(rest);
            let message = match (payload_data.data, field) {
                (Some(_), Some(f)) => f,
                (data, _) => {
                    let mut m = String::new();
                    push_str(&mut m, "Unknown (no message found in data) [");
                    match data {
                        Some(d) => push_str(&mut m, d),
                        None => {},
                    }
                    push_str(&mut m, "]");
                    proof {
                        assert(m@ =~= unknown_message(
                            match data {
                                Some(d) => d@,
                                None => seq![],
                            },
                        ));
                    }
                    m
                },
            };
            Ok(
                SocketIoMessage::ConnectError {
                    namespace: payload_data.namespace.to_owned(),
                    message,
                },
            )
        } else {
            Err(SocketIoError::UnknownMessageType)
        }
    }

    fn parameters_of(payload_data: &SocketIoPayloadData) -> (r: Vec<SocketIoEventParameter>)
        ensures
            params_view(r@) == params_of(payload_data.data_view()),
    {
        match payload_data.data {
            Some(d) => SocketIoEventParameter::parse(d),
            None => {
                let r: Vec<SocketIoEventParameter> = Vec::new();
                proof {
                    assert(params_view(r@) =~= params_of(payload_data.data_view()));
                }
                r
            },
        }
    }

    /// Encodes the message onto `out.text_frame`. A message with a binary
    /// parameter has no text form: then nothing is written.
    pub fn serialize(&self, out: &mut SocketIoPayload) -> (r: Result<(), SocketIoError>)
        ensures
            r is Ok <==> message_encodable(self@),
            r is Ok ==> final(out).text_frame@ == old(out).text_frame@ + message_wire(self@),
            r matches Err(e) ==> e == SocketIoError::UnsupportedFeature && final(out).text_frame
                == old(out).text_frame,
            final(out).binary_frames == old(out).binary_frames,
    {
        match self {
            SocketIoMessage::Connect { namespace, sid } => {
                push_char(&mut out.text_frame, '0');
                let data = match sid {
                    Some(s) => Some(("sid", s.as_str())),
                    None => None,
                };
                serialize_data(out, namespace.as_str(), data);
                proof {
                    assert(out.text_frame@ =~= old(out).text_frame@ + message_wire(self@));
                }
                Ok(())
            },
            SocketIoMessage::Disconnect { namespace } => {
                push_char(&mut out.text_frame, '1');
                serialize_data(out, namespace.as_str(), None);
                proof {
                    assert(out.text_frame@ =~= old(out).text_frame@ + message_wire(self@));
                }
                Ok(())
            },
            SocketIoMessage::Event { namespace, parameters, ack } => {
                proof {
                    lemma_params_views(parameters@);
                }
                if !crate::socket_id_data_serializer::params_all_text(parameters) {
                    return Err(SocketIoError::UnsupportedFeature);
                }
                push_char(&mut out.text_frame, '2');
                let r = serialize_event_data(out, namespace.as_str(), parameters, *ack);
                proof {
                    assert(out.text_frame@ =~= old(out).text_frame@ + message_wire(self@));
                }
                r
            },
            SocketIoMessage::Ack { namespace, parameters, ack } => {
                proof {
                    lemma_params_views(parameters@);
                }
                if !crate::socket_id_data_serializer::params_all_text(parameters) {
                    return Err(SocketIoError::UnsupportedFeature);
                }
                push_char(&mut out.text_frame, '3');
                let r = serialize_event_data(out, namespace.as_str(), parameters, Some(*ack));
                proof {
                    assert(out.text_frame@ =~= old(out).text_frame@ + message_wire(self@));
                }
                r
            },
            SocketIoMessage::ConnectError { namespace, message } => {
                push_char(&mut out.text_frame, '4');
                serialize_data(out, namespace.as_str(), Some(("message", message.as_str())));
                proof {
                    assert(out.text_frame@ =~= old(out).text_frame@ + message_wire(self@));
                }
                Ok(())
            },
        }
    }
}

proof fn lemma_params_views(ps: Seq<SocketIoEventParameter>)
    ensures
        param_texts(ps) == views_texts(params_view(ps)),
        all_text(ps) == views_all_text(params_view(ps)),
{
    assert(param_texts(ps) =~= views_texts(params_view(ps)));
    if all_text(ps) {
        assert forall|i: int| 0 <= i < params_view(ps).len() implies (#[trigger] params_view(
            ps,
        )[i]) is Text by {
            assert(ps[i] is String);
        }
    }
    if views_all_text(params_view(ps)) {
        assert forall|i: int| 0 <= i < ps.len() implies (#[trigger] ps[i]) is String by {
            assert(params_view(ps)[i] is Text);
        }
    }
}

} // verus!
