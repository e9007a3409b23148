use my_socket_io::{GrandAccessData, MySocketIoMessage, MySocketIoTextPayload};

#[test]
fn test_parse_message() {
    let src = "420[\"chat message\",\"123\",{\"name\":\"chat\"}]";
    let message = MySocketIoMessage::parse(src).unwrap();

    if let MySocketIoMessage::Message(message) = message {
        assert_eq!(message.nsp.is_none(), true);
        assert_eq!(message.id.as_ref().unwrap(), "0");
        assert_eq!(message.data.as_str(), &src[3..]);
    } else {
        panic!("Should not be here");
    }
}

#[test]
fn test_connect_message() {
    let connect_message = MySocketIoMessage::RequestAccess(None);
    let result = connect_message.as_str();
    assert_eq!("40", result.as_str());
    if let MySocketIoMessage::RequestAccess(result) =
        MySocketIoMessage::parse(result.as_str()).unwrap()
    {
        assert_eq!(result.is_none(), true);
    } else {
        panic!("Should not be here");
    }

    let connect_message = MySocketIoMessage::RequestAccess(Some("/admin".to_string()));

    let result = connect_message.as_str();

    assert_eq!("40/admin,", result.as_str());

    if let MySocketIoMessage::RequestAccess(result) =
        MySocketIoMessage::parse(result.as_str()).unwrap()
    {
        if let Some(nsp) = result {
            assert_eq!("/admin", nsp);
        }
    } else {
        panic!("Should not be here");
    }
}

#[test]
fn test_grand_access() {
    let grant_access = MySocketIoMessage::GrandAccess(GrandAccessData {
        nsp: None,
        sid: "123".to_string(),
    });

    assert_eq!("40{\"sid\":\"123\"}", grant_access.as_str().as_str());

    let grant_access = MySocketIoMessage::GrandAccess(GrandAccessData {
        nsp: Some("/admin".to_string()),
        sid: "123".to_string(),
    });

    assert_eq!("40/admin,{\"sid\":\"123\"}", grant_access.as_str().as_str());
}

#[test]
fn text_payload_serializes_its_parts_in_order() {
    let payload = MySocketIoTextPayload {
        nsp: Some("/chat".to_string()),
        data: "[\"Test1\",\"Test2\"]".to_string(),
        id: Some("7".to_string()),
    };
    let mut dest = b"42".to_vec();
    payload.serialize(&mut dest);
    assert_eq!(dest, b"42/chat,7[\"Test1\",\"Test2\"]".to_vec());

    let msg = MySocketIoMessage::Message(MySocketIoTextPayload {
        nsp: None,
        data: "[\"Test1\",\"Test2\"]".to_string(),
        id: None,
    });
    assert_eq!(msg.as_str(), "42[\"Test1\",\"Test2\"]");
    assert_eq!(MySocketIoMessage::Ping.as_str(), "2");
    assert_eq!(MySocketIoMessage::Pong.as_str(), "3");
    assert_eq!(MySocketIoMessage::Disconnect.as_str(), "41");
}

#[test]
fn text_payload_parse_failures() {
    // No data array.
    assert!(MySocketIoTextPayload::parse("42abc").is_none());
    // A namespace slash at index 3 without a closing comma.
    assert!(MySocketIoTextPayload::parse("420/x[]").is_none());
    // Ack digits are read from index 2.
    let p = MySocketIoTextPayload::parse("4215[\"a\"]").unwrap();
    assert_eq!(p.id.as_deref(), Some("15"));
    assert_eq!(p.data, "[\"a\"]");
    assert!(MySocketIoMessage::parse("41").is_none());
    assert!(MySocketIoMessage::parse("x").is_none());
    assert!(matches!(
        MySocketIoMessage::parse("43[\"a\"]"),
        Some(MySocketIoMessage::Message(_))
    ));
}
