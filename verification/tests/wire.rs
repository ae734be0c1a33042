use mqtt_relay::broker::{
    decode_request, format_delivery, parse_qos, parse_request, Command, Qos, RequestError,
};

#[test]
fn qos_words_map_to_levels() {
    assert_eq!(parse_qos("0"), Qos::Low);
    assert_eq!(parse_qos("1"), Qos::Medium);
    assert_eq!(parse_qos("2"), Qos::High);
}

#[test]
fn unrecognised_qos_defaults_to_low() {
    assert_eq!(parse_qos("3"), Qos::Low);
    assert_eq!(parse_qos(""), Qos::Low);
    assert_eq!(parse_qos("high"), Qos::Low);
    assert_eq!(parse_qos("01"), Qos::Low);
    assert_eq!(parse_qos("-1"), Qos::Low);
}

#[test]
fn subscribe_request_is_read() {
    assert_eq!(
        parse_request("SUBSCRIBE news 1"),
        Ok(Command::Subscribe { topic: "news".to_string(), qos: Qos::Medium })
    );
}

#[test]
fn subscribe_request_ignores_further_words() {
    assert_eq!(
        parse_request("SUBSCRIBE news 2 and more"),
        Ok(Command::Subscribe { topic: "news".to_string(), qos: Qos::High })
    );
}

#[test]
fn publish_request_is_read() {
    assert_eq!(
        parse_request("PUBLISH news hello 0"),
        Ok(Command::Publish {
            topic: "news".to_string(),
            message: "hello".to_string(),
            qos: Qos::Low
        })
    );
}

#[test]
fn publish_request_with_unknown_qos_is_low() {
    assert_eq!(
        parse_request("  PUBLISH\tsports  goal!  9\n"),
        Ok(Command::Publish {
            topic: "sports".to_string(),
            message: "goal!".to_string(),
            qos: Qos::Low
        })
    );
}

#[test]
fn publish_takes_one_word_as_the_message() {
    assert_eq!(
        parse_request("PUBLISH news hello world 2"),
        Ok(Command::Publish {
            topic: "news".to_string(),
            message: "hello".to_string(),
            qos: Qos::Low
        })
    );
}

#[test]
fn only_a_subscribe_carries_the_handle() {
    assert!(parse_request("SUBSCRIBE news 0").unwrap().carries_handle());
    assert!(!parse_request("PUBLISH news hello 0").unwrap().carries_handle());
}

#[test]
fn short_records_are_refused() {
    assert_eq!(parse_request(""), Err(RequestError::TooShort));
    assert_eq!(parse_request("SUBSCRIBE"), Err(RequestError::TooShort));
    assert_eq!(parse_request("SUBSCRIBE news"), Err(RequestError::TooShort));
    assert_eq!(parse_request("PUBLISH news"), Err(RequestError::TooShort));
    assert_eq!(parse_request("NONSENSE news"), Err(RequestError::TooShort));
}

#[test]
fn publish_without_qos_is_refused() {
    assert_eq!(parse_request("PUBLISH news hello"), Err(RequestError::IncompletePublish));
}

#[test]
fn unknown_commands_are_refused() {
    assert_eq!(parse_request("UNSUBSCRIBE news 0"), Err(RequestError::UnknownCommand));
    assert_eq!(parse_request("subscribe news 0"), Err(RequestError::UnknownCommand));
    assert_eq!(parse_request("publish news hello 0"), Err(RequestError::UnknownCommand));
}

#[test]
fn topics_are_case_sensitive() {
    assert_eq!(
        parse_request("SUBSCRIBE News 0"),
        Ok(Command::Subscribe { topic: "News".to_string(), qos: Qos::Low })
    );
    assert_ne!(parse_request("SUBSCRIBE News 0"), parse_request("SUBSCRIBE news 0"));
}

#[test]
fn records_are_decoded_from_bytes() {
    assert_eq!(
        decode_request(b"PUBLISH news hello 2"),
        Ok(Command::Publish {
            topic: "news".to_string(),
            message: "hello".to_string(),
            qos: Qos::High
        })
    );
    assert_eq!(decode_request(b"SUBSCRIBE"), Err(RequestError::TooShort));
}

#[test]
fn ill_formed_bytes_are_replaced() {
    assert_eq!(
        decode_request(b"SUBSCRIBE ne\xffws 1"),
        Ok(Command::Subscribe { topic: "ne\u{fffd}ws".to_string(), qos: Qos::Medium })
    );
}

#[test]
fn delivery_is_topic_space_message() {
    assert_eq!(format_delivery("news", "hello"), "news hello");
    assert_eq!(format_delivery("", ""), " ");
    assert_eq!(format_delivery("a b", "c"), "a b c");
}
