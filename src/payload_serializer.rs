use vstd::prelude::*;
use vstd::string::StrSliceExecFns;

use crate::error::SocketIoError;
use crate::payload_deserializer::default_namespace;
use crate::socket_id_data_serializer::{
    all_text, param_texts, params_all_text, params_wire, serialize_parameters,
};
use crate::socket_io_data::SocketIoEventParameter;
use crate::text::{decimal, push_char, push_decimal, push_str};

verus! {

/// The output of serialization: one text frame and the binary frames that
/// travel beside it.
#[derive(Debug, Default)]
pub struct SocketIoPayload {
    pub text_frame: String,
    pub binary_frames: Vec<Vec<u8>>,
}

impl SocketIoPayload {
    pub fn new() -> (r: Self)
        ensures
            r.text_frame@ == Seq::<char>::empty(),
            r.binary_frames@ == Seq::<Vec<u8>>::empty(),
    {
        SocketIoPayload { text_frame: String::new(), binary_frames: Vec::new() }
    }
}

/// What stands on the wire before a message's ack id or payload: nothing for
/// the default namespace, else the namespace and a comma.
pub open spec fn namespace_prefix(namespace: Seq<char>) -> Seq<char> {
    if namespace == default_namespace() {
        seq![]
    } else {
        namespace + seq![',']
    }
}

/// The one-field object `{"name":"value"}`, written as is.
pub open spec fn field_object(name: Seq<char>, value: Seq<char>) -> Seq<char> {
    seq!['{', '"'] + name + seq!['"', ':', '"'] + value + seq!['"', '}']
}

/// The wire text of a namespace followed by an optional one-field object.
pub open spec fn data_wire(namespace: Seq<char>, data: Option<(Seq<char>, Seq<char>)>) -> Seq<
    char,
> {
    namespace_prefix(namespace) + match data {
        Some((name, value)) => field_object(name, value),
        None => seq![],
    }
}

/// The decimal ack id, or nothing.
pub open spec fn ack_wire(ack: Option<nat>) -> Seq<char> {
    match ack {
        Some(n) => decimal(n),
        None => seq![],
    }
}

/// The wire text of a namespace, an optional ack id and a parameter array.
pub open spec fn event_wire(namespace: Seq<char>, texts: Seq<Seq<char>>, ack: Option<nat>) -> Seq<
    char,
> {
    namespace_prefix(namespace) + ack_wire(ack) + params_wire(texts)
}

pub open spec fn opt_u64_view(ack: Option<u64>) -> Option<nat> {
    match ack {
        Some(n) => Some(n as nat),
        None => None,
    }
}

/// Whether `namespace` is the default namespace `/`.
pub fn is_default_namespace(namespace: &str) -> (r: bool)
    ensures
        r == (namespace@ == default_namespace()),
{
    if namespace.unicode_len() == 1 {
        let c = namespace.get_char(0);
        proof {
            if c == '/' {
                assert(namespace@ =~= default_namespace());
            }
        }
        c == '/'
    } else {
        false
    }
}

/// Appends the namespace prefix of `namespace` to `out`.
fn serialize_namespace(out: &mut String, namespace: &str)
    ensures
        final(out)@ == old(out)@ + namespace_prefix(namespace@),
{
    if !is_default_namespace(namespace) {
        push_str(out, namespace);
        push_char(out, ',');
        proof {
            assert(out@ =~= old(out)@ + namespace_prefix(namespace@));
        }
    } else {
        proof {
            assert(out@ =~= old(out)@ + namespace_prefix(namespace@));
        }
    }
}

/// Appends the namespace of a message and, if given, a one-field object.
pub fn serialize_data(out: &mut SocketIoPayload, namespace: &str, data: Option<(&str, &str)>)
    ensures
        final(out).text_frame@ == old(out).text_frame@ + data_wire(
            namespace@,
            match data {
                Some((name, value)) => Some((name@, value@)),
                None => None,
            },
        ),
        final(out).binary_frames == old(out).binary_frames,
{
    serialize_namespace(&mut out.text_frame, namespace);
    if let Some(data) = data {
        push_char(&mut out.text_frame, '{');
        push_char(&mut out.text_frame, '"');
        push_str(&mut out.text_frame, data.0);
        push_char(&mut out.text_frame, '"');
        push_char(&mut out.text_frame, ':');
        push_char(&mut out.text_frame, '"');
        push_str(&mut out.text_frame, data.1);
        push_char(&mut out.text_frame, '"');
        push_char(&mut out.text_frame, '}');
    }
    proof {
        assert(out.text_frame@ =~= old(out).text_frame@ + data_wire(
            namespace@,
            match data {
                Some((name, value)) => Some((name@, value@)),
                None => None,
            },
        ));
    }
}

/// Appends the namespace, the ack id and the parameter array of an event or
/// acknowledgement. Binary parameters have no text form: then nothing is
/// written and the result is `UnsupportedFeature`.
pub fn serialize_event_data(
    out: &mut SocketIoPayload,
    namespace: &str,
    parameters: &Vec<SocketIoEventParameter>,
    ack: Option<u64>,
) -> (r: Result<(), SocketIoError>)
    ensures
        r is Ok <==> all_text(parameters@),
        r is Ok ==> final(out).text_frame@ == old(out).text_frame@ + event_wire(
            namespace@,
            param_texts(parameters@),
            opt_u64_view(ack),
        ),
        r matches Err(e) ==> e == SocketIoError::UnsupportedFeature && final(out).text_frame
            == old(out).text_frame,
        final(out).binary_frames == old(out).binary_frames,
{
    if !params_all_text(parameters) {
        return Err(SocketIoError::UnsupportedFeature);
    }
    serialize_namespace(&mut out.text_frame, namespace);
    if let Some(ack) = ack {
        push_decimal(&mut out.text_frame, ack);
    }
    serialize_parameters(parameters, &mut out.text_frame);
    proof {
        assert(out.text_frame@ =~= old(out).text_frame@ + event_wire(
            namespace@,
            param_texts(parameters@),
            opt_u64_view(ack),
        ));
    }
    Ok(())
}

} // verus!
