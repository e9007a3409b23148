use my_socket_io::{
    compile_connect_payload, compile_negotiate_response, deserialize_data,
    deserialize_event_data, serialize_data, serialize_event_data, SocketIoDataSerializer,
    SocketIoError, SocketIoEventParameter, SocketIoHandshakeOpenModel, SocketIoMessage,
    SocketIoPayload, SocketIoProtocol, SocketIoSettings, SocketIoWsContract,
};

fn frame_text(frame: &SocketIoProtocol) -> String {
    let mut out = String::new();
    frame.serialize(&mut out).unwrap();
    out
}

#[test]
fn frame_type_digits() {
    assert!(matches!(SocketIoProtocol::deserialize("0", None), Ok(SocketIoProtocol::Open)));
    assert!(matches!(SocketIoProtocol::deserialize("1", None), Ok(SocketIoProtocol::Close)));
    assert!(matches!(SocketIoProtocol::deserialize("5", None), Ok(SocketIoProtocol::Upgrade)));
    assert!(matches!(SocketIoProtocol::deserialize("6", None), Ok(SocketIoProtocol::Noop)));
    assert_eq!(frame_text(&SocketIoProtocol::Open), "0");
    assert_eq!(frame_text(&SocketIoProtocol::Close), "1");
    assert_eq!(frame_text(&SocketIoProtocol::Upgrade), "5");
    assert_eq!(frame_text(&SocketIoProtocol::Noop), "6");
}

#[test]
fn ping_and_pong_probe() {
    assert!(matches!(
        SocketIoProtocol::deserialize("2", None),
        Ok(SocketIoProtocol::Ping { with_probe: false })
    ));
    assert!(matches!(
        SocketIoProtocol::deserialize("2probe", None),
        Ok(SocketIoProtocol::Ping { with_probe: true })
    ));
    assert!(matches!(
        SocketIoProtocol::deserialize("3x", None),
        Ok(SocketIoProtocol::Pong { with_probe: true })
    ));
    assert_eq!(frame_text(&SocketIoProtocol::Ping { with_probe: true }), "2probe");
    assert_eq!(frame_text(&SocketIoProtocol::Pong { with_probe: false }), "3");
    assert_eq!(frame_text(&SocketIoProtocol::Pong { with_probe: true }), "3probe");
}

#[test]
fn frame_errors() {
    assert_eq!(
        SocketIoProtocol::deserialize("", None).err().map(|e| e),
        Some(SocketIoError::EmptyInput)
    );
    assert_eq!(
        SocketIoProtocol::deserialize("9", None).err(),
        Some(SocketIoError::UnknownFrameType)
    );
    assert_eq!(
        SocketIoProtocol::deserialize("4", None).err(),
        Some(SocketIoError::EmptyInput)
    );
    assert_eq!(
        SocketIoProtocol::deserialize("48", None).err(),
        Some(SocketIoError::UnknownMessageType)
    );
    assert_eq!(
        SocketIoWsContract::deserialize("x", None).err(),
        Some(SocketIoError::UnknownFrameType)
    );
}

#[test]
fn message_frame_round_trip() {
    let frame = SocketIoProtocol::Message(SocketIoMessage::Event {
        namespace: "/admin".to_string(),
        parameters: vec![SocketIoEventParameter::String("bar".to_string())],
        ack: Some(3),
    });
    let text = frame_text(&frame);
    assert_eq!(text, "42/admin,3[\"bar\"]");
    match SocketIoProtocol::deserialize(&text, None) {
        Ok(SocketIoProtocol::Message(SocketIoMessage::Event {
            namespace,
            parameters,
            ack,
        })) => {
            assert_eq!(namespace, "/admin");
            assert_eq!(parameters[0].unwrap_as_str(), "bar");
            assert_eq!(ack, Some(3));
        }
        _ => panic!("Invalid frame"),
    }
}

#[test]
fn connect_frame_names_its_field() {
    let (name, data) =
        my_socket_io::socket_io_protocol::frame_payload_field("40/admin,{\"sid\":\"abc\"}").unwrap();
    assert_eq!(name, "sid");
    assert_eq!(data, "{\"sid\":\"abc\"}");
    assert!(my_socket_io::socket_io_protocol::frame_payload_field("40/admin,").is_none());
    assert!(my_socket_io::socket_io_protocol::frame_payload_field("2").is_none());
    match SocketIoProtocol::deserialize("40/admin,{\"sid\":\"abc\"}", Some("abc".to_string())) {
        Ok(SocketIoProtocol::Message(SocketIoMessage::Connect { namespace, sid })) => {
            assert_eq!(namespace, "/admin");
            assert_eq!(sid.as_deref(), Some("abc"));
        }
        _ => panic!("Invalid frame"),
    }
}

#[test]
fn ws_contract_serializes_into_payload() {
    let mut out = SocketIoPayload::new();
    SocketIoWsContract::Ping { with_probe: true }
        .serialize(&mut out)
        .unwrap();
    SocketIoWsContract::Message(SocketIoMessage::Disconnect {
        namespace: "/admin".to_string(),
    })
    .serialize(&mut out)
    .unwrap();
    assert_eq!(out.text_frame, "2probe41/admin,");
    assert!(out.binary_frames.is_empty());

    let bad = SocketIoWsContract::Message(SocketIoMessage::Ack {
        namespace: "/".to_string(),
        parameters: vec![SocketIoEventParameter::Binary(vec![0])],
        ack: 1,
    });
    assert_eq!(bad.serialize(&mut out), Err(SocketIoError::UnsupportedFeature));
    assert_eq!(out.text_frame, "2probe41/admin,");

    match SocketIoWsContract::deserialize("41/admin,", None) {
        Ok(SocketIoWsContract::Message(SocketIoMessage::Disconnect { namespace })) => {
            assert_eq!(namespace, "/admin")
        }
        _ => panic!("Invalid frame"),
    }
}

#[test]
fn tokenizer_reads_quoted_strings() {
    let params = SocketIoEventParameter::parse(r#"["a\"b", 12, {"k":"v"}, "c\\d", "open"#);
    let texts: Vec<&str> = params.iter().map(|p| p.unwrap_as_str()).collect();
    assert_eq!(texts, vec!["a\"b", "k", "v", "c\\d"]);
    assert!(SocketIoEventParameter::parse("").is_empty());
    assert!(SocketIoEventParameter::parse("[1,2,true]").is_empty());
}

#[test]
fn quote_is_escaped_and_read_back() {
    let mut serializer = SocketIoDataSerializer::new();
    serializer.write_value("he said \"no\"");
    let mut out = String::new();
    serializer.build_into(&mut out);
    assert_eq!(out, r#"["he said \"no\""]"#);
    let params = SocketIoEventParameter::parse(&out);
    assert_eq!(params.len(), 1);
    assert_eq!(params[0].unwrap_as_str(), "he said \"no\"");
}

#[test]
fn data_serializer_writes_typed_values() {
    let mut serializer = SocketIoDataSerializer::new();
    serializer.write_value("a");
    serializer.write_value(String::from("b\\"));
    serializer.write_value(&5u8);
    serializer.write_value(&-3i32);
    serializer.write_value(&i64::MIN);
    serializer.write_value(&u64::MAX);
    serializer.write_value(&0usize);
    let mut out = String::from(">");
    serializer.build_into(&mut out);
    assert_eq!(
        out,
        r#">["a","b\","5","-3","-9223372036854775808","18446744073709551615","0"]"#
    );

    let empty = SocketIoDataSerializer::new();
    let mut out = String::new();
    empty.build_into(&mut out);
    assert_eq!(out, "[]");
}

#[test]
fn header_parser_cases() {
    let d = deserialize_data("");
    assert_eq!(d.namespace, "/");
    assert!(d.data.is_none());

    let d = deserialize_data("/admin,{\"sid\":\"1\"}");
    assert_eq!(d.namespace, "/admin");
    assert_eq!(d.data, Some("{\"sid\":\"1\"}"));
    assert!(d.ack.is_none());

    let d = deserialize_data("/admin,");
    assert_eq!(d.namespace, "/admin");
    assert!(d.data.is_none());

    let d = deserialize_data("/admin");
    assert_eq!(d.namespace, "/admin");
    assert!(d.data.is_none());

    let d = deserialize_event_data("/admin,13[\"bar\"]").unwrap();
    assert_eq!(d.namespace, "/admin");
    assert_eq!(d.ack, Some(13));
    assert_eq!(d.data, Some("[\"bar\"]"));

    let d = deserialize_event_data("7").unwrap();
    assert_eq!(d.namespace, "/");
    assert_eq!(d.ack, Some(7));
    assert_eq!(d.data, Some(""));

    let d = deserialize_event_data("[\"x\"]").unwrap();
    assert_eq!(d.namespace, "/");
    assert!(d.ack.is_none());
    assert_eq!(d.data, Some("[\"x\"]"));

    // The ack id is read by the event parser only.
    let d = deserialize_data("99999999999999999999[]");
    assert_eq!(d.data, Some("[]"));
    assert_eq!(
        deserialize_event_data("99999999999999999999[]").err(),
        Some(SocketIoError::MalformedHeader)
    );
}

#[test]
fn payload_serializer_functions() {
    let mut out = SocketIoPayload::new();
    serialize_data(&mut out, "/admin", Some(("sid", "x")));
    assert_eq!(out.text_frame, "/admin,{\"sid\":\"x\"}");

    let mut out = SocketIoPayload::new();
    serialize_data(&mut out, "/", None);
    assert_eq!(out.text_frame, "");

    let mut out = SocketIoPayload::new();
    let params = vec![
        SocketIoEventParameter::String("a".to_string()),
        SocketIoEventParameter::String("b".to_string()),
    ];
    serialize_event_data(&mut out, "/", &params, Some(42)).unwrap();
    assert_eq!(out.text_frame, "42[\"a\",\"b\"]");

    let mut out = SocketIoPayload::new();
    let params = vec![SocketIoEventParameter::Binary(vec![1])];
    assert_eq!(
        serialize_event_data(&mut out, "/x", &params, None),
        Err(SocketIoError::UnsupportedFeature)
    );
    assert_eq!(out.text_frame, "");
}

#[test]
fn handshake_announcement() {
    let settings = SocketIoSettings {
        ping_interval_millis: 25000,
        ping_timeout_millis: 20000,
        max_payload_size: 1000000,
    };
    assert_eq!(
        compile_negotiate_response("abc", &settings),
        "0{\"sid\":\"abc\",\"upgrades\":[\"websocket\"],\"pingInterval\":25000,\"pingTimeout\":20000,\"maxPayload\":1000000}"
    );
    assert_eq!(compile_connect_payload("123"), b"40{\"sid\":\"123\"}".to_vec());

    let model = SocketIoHandshakeOpenModel::from_settings("abc".to_string(), &settings);
    assert_eq!(model.sid, "abc");
    assert_eq!(model.upgrades, vec!["websocket".to_string()]);
    assert_eq!(model.ping_interval, 25000);
    assert_eq!(model.ping_timeout, 20000);
    assert_eq!(model.max_payload, 1000000);
}

#[test]
fn connect_frame_on_default_namespace() {
    match SocketIoMessage::deserialize("0", None) {
        Ok(SocketIoMessage::Connect { namespace, sid }) => {
            assert_eq!(namespace, "/");
            assert!(sid.is_none());
        }
        _ => panic!("Invalid message"),
    }
    match SocketIoProtocol::deserialize("40", None) {
        Ok(SocketIoProtocol::Message(SocketIoMessage::Connect { namespace, sid })) => {
            assert_eq!(namespace, "/");
            assert!(sid.is_none());
        }
        _ => panic!("Invalid frame"),
    }
    let frame = SocketIoProtocol::Message(SocketIoMessage::Connect {
        namespace: "/".to_string(),
        sid: None,
    });
    assert_eq!(frame_text(&frame), "40");
}

#[test]
fn ack_parameters_keep_a_leading_name() {
    // The first parameter of an acknowledgement is an ordinary parameter.
    let message = SocketIoMessage::Ack {
        namespace: "/".to_string(),
        parameters: vec![
            SocketIoEventParameter::String("reply".to_string()),
            SocketIoEventParameter::String("ok".to_string()),
        ],
        ack: 5,
    };
    let mut out = SocketIoPayload::new();
    message.serialize(&mut out).unwrap();
    assert_eq!(out.text_frame, "35[\"reply\",\"ok\"]");
    match SocketIoMessage::deserialize(&out.text_frame, None) {
        Ok(SocketIoMessage::Ack { parameters, ack, .. }) => {
            assert_eq!(ack, 5);
            assert_eq!(parameters.len(), 2);
            assert_eq!(parameters[0].unwrap_as_str(), "reply");
        }
        _ => panic!("Invalid message"),
    }
}
