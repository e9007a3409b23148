use my_socket_io::{SocketIoError, SocketIoEventParameter, SocketIoMessage, SocketIoPayload};

fn text_params(values: &[&str]) -> Vec<SocketIoEventParameter> {
    values
        .iter()
        .map(|v| SocketIoEventParameter::String(v.to_string()))
        .collect()
}

fn serialize(message: &SocketIoMessage) -> String {
    let mut result = SocketIoPayload::new();
    message.serialize(&mut result).unwrap();
    result.text_frame
}

/// Decodes `text` the way a caller with a JSON reader would: the field that
/// the payload carries is handed in as `field`.
fn deserialize(text: &str, field: Option<&str>) -> SocketIoMessage {
    SocketIoMessage::deserialize(text, field.map(|f| f.to_string())).unwrap()
}

#[test]
fn test_connect_to_default_namespace() {
    let message = SocketIoMessage::Connect {
        namespace: "/".to_string(),
        sid: None,
    };
    let text = serialize(&message);
    assert_eq!(text, "0");
    assert!(SocketIoMessage::payload_field(&text).is_none());
    match deserialize(&text, None) {
        SocketIoMessage::Connect { namespace, sid } => {
            assert_eq!(namespace.as_str(), "/");
            assert!(sid.is_none());
        }
        _ => panic!("Invalid message"),
    }
}

#[test]
fn test_connect_to_a_custom_namespace() {
    let message = SocketIoMessage::Connect {
        namespace: "/admin".to_string(),
        sid: Some("oSO0OpakMV_3jnilAAAA".to_string()),
    };
    let text = serialize(&message);
    assert_eq!(text, r#"0/admin,{"sid":"oSO0OpakMV_3jnilAAAA"}"#);

    let (name, data) = SocketIoMessage::payload_field(&text).unwrap();
    assert_eq!(name, "sid");
    assert_eq!(data, r#"{"sid":"oSO0OpakMV_3jnilAAAA"}"#);

    match deserialize(&text, Some("oSO0OpakMV_3jnilAAAA")) {
        SocketIoMessage::Connect { namespace, sid } => {
            assert_eq!(namespace.as_str(), "/admin");
            assert_eq!(sid.unwrap().as_str(), "oSO0OpakMV_3jnilAAAA");
        }
        _ => panic!("Invalid message"),
    }
}

#[test]
fn test_connect_error_default_namespace() {
    let message = SocketIoMessage::ConnectError {
        namespace: "/".to_string(),
        message: "Not authorized".to_string(),
    };
    let text = serialize(&message);
    assert_eq!(text, r#"4{"message":"Not authorized"}"#);

    let (name, data) = SocketIoMessage::payload_field(&text).unwrap();
    assert_eq!(name, "message");
    assert_eq!(data, r#"{"message":"Not authorized"}"#);

    match deserialize(&text, Some("Not authorized")) {
        SocketIoMessage::ConnectError { namespace, message } => {
            assert_eq!(namespace.as_str(), "/");
            assert_eq!(message.as_str(), "Not authorized");
        }
        _ => panic!("Invalid message"),
    }
}

#[test]
fn test_sending_event_to_default_namespace() {
    let message = SocketIoMessage::Event {
        namespace: "/".to_string(),
        parameters: text_params(&["foo"]),
        ack: None,
    };
    let text = serialize(&message);
    assert_eq!(text, r#"2["foo"]"#);

    match deserialize(&text, None) {
        SocketIoMessage::Event {
            namespace,
            parameters,
            ack,
        } => {
            assert_eq!(namespace.as_str(), "/");
            assert_eq!(parameters, text_params(&["foo"]));
            assert_eq!(parameters[0].unwrap_as_str(), "foo");
            assert!(ack.is_none());
        }
        _ => panic!("Invalid message"),
    }
}

#[test]
fn test_sending_event_to_custom_namespace() {
    let message = SocketIoMessage::Event {
        namespace: "/admin".to_string(),
        parameters: text_params(&["foo"]),
        ack: None,
    };
    let text = serialize(&message);
    assert_eq!(text, r#"2/admin,["foo"]"#);

    match deserialize(&text, None) {
        SocketIoMessage::Event {
            namespace,
            parameters,
            ack,
        } => {
            assert_eq!(namespace.as_str(), "/admin");
            assert_eq!(parameters, text_params(&["foo"]));
            assert!(ack.is_none());
        }
        _ => panic!("Invalid message"),
    }
}

#[test]
fn test_sending_event_to_custom_namespace_with_params() {
    let data = "{\"type\":\"AccountStatus\",\"accountId\":\"L#711000\"}";
    let message = SocketIoMessage::Event {
        namespace: "/admin".to_string(),
        parameters: text_params(&["foo", data]),
        ack: None,
    };
    let text = serialize(&message);
    // String parameters are quoted, and their quotes escaped.
    assert_eq!(
        text,
        r#"2/admin,["foo","{\"type\":\"AccountStatus\",\"accountId\":\"L#711000\"}"]"#
    );

    match deserialize(&text, None) {
        SocketIoMessage::Event {
            namespace,
            parameters,
            ack,
        } => {
            assert_eq!(namespace.as_str(), "/admin");
            assert_eq!(parameters[0].unwrap_as_str(), "foo");
            assert_eq!(parameters[1].unwrap_as_str(), data);
            assert_eq!(parameters.len(), 2);
            assert!(ack.is_none());
        }
        _ => panic!("Invalid message"),
    }

    // A raw object in the array is structure: only its quoted strings are read.
    let raw = r#"2/admin,["foo",{"type":"AccountStatus","accountId":"L#711000"}]"#;
    match deserialize(raw, None) {
        SocketIoMessage::Event {
            namespace,
            parameters,
            ack,
        } => {
            assert_eq!(namespace.as_str(), "/admin");
            assert_eq!(
                parameters,
                text_params(&["foo", "type", "AccountStatus", "accountId", "L#711000"])
            );
            assert!(ack.is_none());
        }
        _ => panic!("Invalid message"),
    }
}

#[test]
fn test_sending_event_to_default_namespace_with_ack() {
    let message = SocketIoMessage::Event {
        namespace: "/".to_string(),
        parameters: text_params(&["foo"]),
        ack: Some(12),
    };
    let text = serialize(&message);
    assert_eq!(text, r#"212["foo"]"#);

    match deserialize(&text, None) {
        SocketIoMessage::Event {
            namespace,
            parameters,
            ack,
        } => {
            assert_eq!(namespace.as_str(), "/");
            assert_eq!(parameters, text_params(&["foo"]));
            assert_eq!(ack.unwrap(), 12);
        }
        _ => panic!("Invalid message"),
    }
}

#[test]
fn test_ack_with_custom_namespace() {
    let message = SocketIoMessage::Ack {
        namespace: "/admin".to_string(),
        parameters: text_params(&["bar"]),
        ack: 13,
    };
    let text = serialize(&message);
    assert_eq!(text, r#"3/admin,13["bar"]"#);

    match deserialize(&text, None) {
        SocketIoMessage::Ack {
            namespace,
            parameters,
            ack,
        } => {
            assert_eq!(namespace.as_str(), "/admin");
            assert_eq!(parameters, text_params(&["bar"]));
            assert_eq!(ack, 13);
        }
        _ => panic!("Invalid message"),
    }
}

#[test]
fn test_disconnect_from_default_namespace() {
    let message = SocketIoMessage::Disconnect {
        namespace: "/".to_string(),
    };
    let text = serialize(&message);
    assert_eq!(text, "1");

    match deserialize(&text, None) {
        SocketIoMessage::Disconnect { namespace } => {
            assert_eq!(namespace.as_str(), "/");
        }
        _ => panic!("Invalid message"),
    }
}

#[test]
fn test_disconnect_from_admin_namespace() {
    let message = SocketIoMessage::Disconnect {
        namespace: "/admin".to_string(),
    };
    let text = serialize(&message);
    assert_eq!(text, "1/admin,");

    match deserialize(&text, None) {
        SocketIoMessage::Disconnect { namespace } => {
            assert_eq!(namespace.as_str(), "/admin");
        }
        _ => panic!("Invalid message"),
    }
}

#[test]
fn ack_without_ack_id_is_rejected() {
    let r = SocketIoMessage::deserialize("3/admin,[\"bar\"]", None);
    assert_eq!(r.err(), Some(SocketIoError::MissingAck));
    let r = SocketIoMessage::deserialize("3[\"bar\"]", None);
    assert_eq!(r.err(), Some(SocketIoError::MissingAck));
    let r = SocketIoMessage::deserialize("3", None);
    assert_eq!(r.err(), Some(SocketIoError::MissingAck));
}

#[test]
fn empty_message_is_rejected() {
    let r = SocketIoMessage::deserialize("", None);
    assert_eq!(r.err(), Some(SocketIoError::EmptyInput));
}

#[test]
fn unknown_message_type_is_rejected() {
    let r = SocketIoMessage::deserialize("7/admin,", None);
    assert_eq!(r.err(), Some(SocketIoError::UnknownMessageType));
}

#[test]
fn oversized_ack_id_is_rejected() {
    let r = SocketIoMessage::deserialize("218446744073709551616[\"foo\"]", None);
    assert_eq!(r.err(), Some(SocketIoError::MalformedHeader));
    match deserialize("218446744073709551615[\"foo\"]", None) {
        SocketIoMessage::Event { ack, .. } => assert_eq!(ack, Some(u64::MAX)),
        _ => panic!("Invalid message"),
    }
}

#[test]
fn binary_parameter_cannot_be_serialized() {
    let message = SocketIoMessage::Event {
        namespace: "/".to_string(),
        parameters: vec![
            SocketIoEventParameter::String("foo".to_string()),
            SocketIoEventParameter::Binary(vec![1, 2, 3]),
        ],
        ack: None,
    };
    let mut out = SocketIoPayload::new();
    out.text_frame.push_str("kept");
    assert_eq!(
        message.serialize(&mut out),
        Err(SocketIoError::UnsupportedFeature)
    );
    assert_eq!(out.text_frame, "kept");
}

#[test]
fn connect_error_without_message_field_gets_a_diagnostic() {
    match deserialize("4{\"reason\":\"x\"}", None) {
        SocketIoMessage::ConnectError { namespace, message } => {
            assert_eq!(namespace, "/");
            assert_eq!(
                message,
                "Unknown (no message found in data) [{\"reason\":\"x\"}]"
            );
        }
        _ => panic!("Invalid message"),
    }
    match deserialize("4/admin,", None) {
        SocketIoMessage::ConnectError { namespace, message } => {
            assert_eq!(namespace, "/admin");
            assert_eq!(message, "Unknown (no message found in data) []");
        }
        _ => panic!("Invalid message"),
    }
}

#[test]
fn event_without_payload_has_no_parameters() {
    match deserialize("2/admin,", None) {
        SocketIoMessage::Event {
            namespace,
            parameters,
            ack,
        } => {
            assert_eq!(namespace, "/admin");
            assert!(parameters.is_empty());
            assert!(ack.is_none());
        }
        _ => panic!("Invalid message"),
    }
}

#[test]
fn empty_parameter_list_round_trips() {
    let message = SocketIoMessage::Event {
        namespace: "/chat".to_string(),
        parameters: vec![],
        ack: Some(0),
    };
    let text = serialize(&message);
    assert_eq!(text, "2/chat,0[]");
    match deserialize(&text, None) {
        SocketIoMessage::Event {
            namespace,
            parameters,
            ack,
        } => {
            assert_eq!(namespace, "/chat");
            assert!(parameters.is_empty());
            assert_eq!(ack, Some(0));
        }
        _ => panic!("Invalid message"),
    }
}

#[test]
fn namespace_is_elided_only_when_default() {
    let default = SocketIoMessage::Ack {
        namespace: "/".to_string(),
        parameters: text_params(&["/x"]),
        ack: 7,
    };
    assert_eq!(serialize(&default), "37[\"/x\"]");
    let custom = SocketIoMessage::Ack {
        namespace: "/room".to_string(),
        parameters: text_params(&["/x"]),
        ack: 7,
    };
    assert_eq!(serialize(&custom), "3/room,7[\"/x\"]");
    assert_eq!(default.get_namespace(), "/");
    assert_eq!(custom.get_namespace(), "/room");
}

#[test]
fn quotes_in_parameters_round_trip() {
    let message = SocketIoMessage::Event {
        namespace: "/".to_string(),
        parameters: text_params(&["say \"hi\"", ""]),
        ack: None,
    };
    let text = serialize(&message);
    assert_eq!(text, r#"2["say \"hi\"",""]"#);
    match deserialize(&text, None) {
        SocketIoMessage::Event { parameters, .. } => {
            assert_eq!(parameters, text_params(&["say \"hi\"", ""]));
        }
        _ => panic!("Invalid message"),
    }
}
