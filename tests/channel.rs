use ps_wrapper::address::socket_address;
use ps_wrapper::channel::{Listen, Publish, PsWrapper, RECEIVE_CAPACITY, SENDER_TOS};
use ps_wrapper::codec::{encode, ChannelError, Message, MessageType};
use ps_wrapper::socket::{create_udp_socket, setup_outcome, SocketSetup};

#[test]
fn addresses_are_ip_colon_decimal_port() {
    assert_eq!(socket_address("127.0.0.1", 9000), "127.0.0.1:9000");
    assert_eq!(socket_address("0.0.0.0", 0), "0.0.0.0:0");
    assert_eq!(socket_address("10.1.2.3", 65535), "10.1.2.3:65535");
    assert_eq!(socket_address("::1", 7), "::1:7");
    assert_eq!(socket_address("h", 10), "h:10");
}

#[test]
fn factory_binds_an_ephemeral_port_with_the_option() {
    assert_eq!(
        create_udp_socket(192, "0.0.0.0"),
        SocketSetup { bind_addr: "0.0.0.0:0".to_string(), type_of_service: Some(192), nonblocking: false }
    );
    assert_eq!(create_udp_socket(255, "192.168.0.4").type_of_service, Some(255));
}

#[test]
fn setup_is_all_or_nothing() {
    assert_eq!(setup_outcome(true, Some(0), true), Ok(()));
    assert_eq!(setup_outcome(true, None, true), Ok(()));
    assert_eq!(setup_outcome(false, Some(0), true), Err(ChannelError::BindError));
    assert_eq!(setup_outcome(true, Some(-1), true), Err(ChannelError::OptionError));
    assert_eq!(setup_outcome(true, Some(0), false), Err(ChannelError::BindError));
}

#[test]
fn a_channel_is_a_sender_by_default() {
    let ch = PsWrapper::new("127.0.0.1", 5005, MessageType::Int8, None);
    assert!(ch.is_sender);
    assert_eq!(ch.target_addr, "127.0.0.1:5005");
    assert_eq!(ch.msg_type, MessageType::Int8);
    assert!(!PsWrapper::new("127.0.0.1", 5005, MessageType::Int8, Some(false)).is_sender);
}

#[test]
fn sender_socket_is_wildcard_nonblocking_with_tos() {
    let ch = PsWrapper::new("127.0.0.1", 5005, MessageType::Int8, Some(true));
    assert_eq!(
        ch.socket_setup(),
        SocketSetup {
            bind_addr: "0.0.0.0:0".to_string(),
            type_of_service: Some(SENDER_TOS as i32),
            nonblocking: true,
        }
    );
}

#[test]
fn receiver_socket_binds_the_target_and_blocks() {
    let ch = PsWrapper::new("127.0.0.1", 5005, MessageType::Int8, Some(false));
    assert_eq!(
        ch.socket_setup(),
        SocketSetup { bind_addr: "127.0.0.1:5005".to_string(), type_of_service: None, nonblocking: false }
    );
}

#[test]
fn sender_publishes_one_datagram_of_the_encoding() {
    let ch = PsWrapper::new("127.0.0.1", 5005, MessageType::FloatArray, None);
    let message = Message::FloatArray(vec![1.0f32.to_bits()]);
    let expected = encode(&MessageType::FloatArray, &message).unwrap();
    assert_eq!(
        ch.publish(&message),
        Ok(Publish::Send { payload: expected, to: "127.0.0.1:5005".to_string() })
    );
}

#[test]
fn receiver_publish_sends_nothing() {
    let ch = PsWrapper::new("127.0.0.1", 5005, MessageType::Int8, Some(false));
    assert_eq!(ch.publish(&Message::Int8(1)), Ok(Publish::Skip));
}

#[test]
fn sender_publish_fails_as_encoding_fails() {
    let ch = PsWrapper::new("127.0.0.1", 5005, MessageType::Int8, None);
    assert_eq!(ch.publish(&Message::FloatArray(vec![])), Err(ChannelError::EncodeError));
    let other = PsWrapper::new("127.0.0.1", 5005, MessageType::Other("Pose".to_string()), None);
    assert_eq!(
        other.publish(&Message::Int8(1)),
        Err(ChannelError::UnsupportedType { tag: "Pose".to_string(), data: None })
    );
}

#[test]
fn listen_waits_on_a_failed_receive() {
    let ch = PsWrapper::new("127.0.0.1", 5005, MessageType::Int8, Some(false));
    let buf = [0u8; RECEIVE_CAPACITY];
    assert_eq!(ch.listen(&buf, None), Listen::Wait);
}

#[test]
fn listen_decodes_only_the_received_bytes() {
    let ch = PsWrapper::new("127.0.0.1", 5005, MessageType::Int8, Some(false));
    let mut buf = [0u8; RECEIVE_CAPACITY];
    buf[0] = 0xFB;
    assert_eq!(ch.listen(&buf, Some(1)), Listen::Done(Ok(Message::Int8(-5))));
    assert_eq!(ch.listen(&buf, Some(0)), Listen::Done(Err(ChannelError::MalformedPayload)));
}

#[test]
fn sender_to_receiver_carries_an_int8() {
    let sender = PsWrapper::new("127.0.0.1", 5005, MessageType::Int8, None);
    let receiver = PsWrapper::new("127.0.0.1", 5005, MessageType::Int8, Some(false));
    assert_eq!(receiver.socket_setup().bind_addr, sender.target_addr);
    let payload = match sender.publish(&Message::Int8(42)).unwrap() {
        Publish::Send { payload, to } => {
            assert_eq!(to, "127.0.0.1:5005");
            payload
        }
        Publish::Skip => panic!("a sender must send"),
    };
    let mut buf = [0u8; RECEIVE_CAPACITY];
    buf[..payload.len()].copy_from_slice(&payload);
    assert_eq!(receiver.listen(&buf, Some(payload.len())), Listen::Done(Ok(Message::Int8(42))));
}
