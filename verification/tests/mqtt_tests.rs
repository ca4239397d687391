use mwha::mqtt::DispatchOutcome;
use mwha::mqtt::MqttConfig;
use mwha::mqtt::PayloadDecodeError;
use mwha::mqtt::SessionAction;
use mwha::mqtt::SessionEvent;
use mwha::mqtt::SubscriptionError;
use mwha::mqtt::SubscriptionTable;
use mwha::mqtt::TopicHandler;
use mwha::mqtt::decode_zone_attribute;
use mwha::mqtt::handle_session_event;
use mwha::mqtt::install_zone_attribute_subscription_handlers;
use mwha::zone::ZoneAttribute;
use mwha::zone::ZoneAttributeDiscriminants;
use mwha::zone::ZoneId;

fn zone11() -> ZoneId {
    ZoneId::Zone { amp: 1, zone: 1 }
}

fn volume_handler() -> TopicHandler {
    TopicHandler::ZoneAttributeSet { zone_id: zone11(), kind: ZoneAttributeDiscriminants::Volume }
}

fn config_with_url(url: &str) -> MqttConfig {
    let parsed = url::Url::parse(url).unwrap();
    MqttConfig {
        url: url.to_string(),
        url_path: parsed.path().to_string(),
        srv_lookup: false,
        ca_certs: None,
        client_certs: None,
        client_key: None,
    }
}

#[test]
fn test_config_topic_base() {
    assert_eq!(config_with_url("mqtt://localhost").topic_base("default/"), "default/");
    assert_eq!(config_with_url("mqtt://localhost/").topic_base("default/"), "");
    assert_eq!(config_with_url("mqtt://localhost/base").topic_base("default/"), "base/");
    assert_eq!(config_with_url("mqtt://localhost/base/").topic_base("default/"), "base/");
    assert_eq!(config_with_url("mqtt://localhost//base/").topic_base("default/"), "/base/");
}

#[test]
fn handler_invisible_until_acknowledged() {
    let mut table = SubscriptionTable::new();
    let topic = "mwha/set/zone/11/volume".to_string();

    // requested but not yet reported sent: not dispatchable
    table.request(topic.clone(), volume_handler());
    assert_eq!(table.lookup(&topic), None);

    // the subscribe packet went out: still not dispatchable
    assert_eq!(table.on_subscribe_sent(7), Ok(()));
    assert_eq!(table.lookup(&topic), None);
    assert!(matches!(
        table.dispatch(&topic, b"20"),
        DispatchOutcome::NoHandler
    ));

    // the acknowledgement arrived: dispatchable with the registered handler
    assert_eq!(table.on_suback(7), Ok(()));
    assert_eq!(table.lookup(&topic), Some(volume_handler()));
    assert_eq!(
        table.dispatch(&topic, b"20"),
        DispatchOutcome::Change(zone11(), ZoneAttribute::Volume(20))
    );
}

#[test]
fn unknown_acknowledgement_is_refused() {
    let mut table = SubscriptionTable::new();
    assert_eq!(table.on_suback(3), Err(SubscriptionError::UnknownAcknowledgement(3)));
    assert_eq!(table.on_subscribe_sent(3), Err(SubscriptionError::NoPendingRequest));
}

#[test]
fn acknowledgements_match_in_fifo_order() {
    let mut table = SubscriptionTable::new();
    let t1 = "a/set/zone/11/volume".to_string();
    let t2 = "a/set/zone/12/mute".to_string();
    let h1 = TopicHandler::ZoneAttributeSet {
        zone_id: zone11(),
        kind: ZoneAttributeDiscriminants::Volume,
    };
    let h2 = TopicHandler::ZoneAttributeSet {
        zone_id: ZoneId::Zone { amp: 1, zone: 2 },
        kind: ZoneAttributeDiscriminants::Mute,
    };
    table.request(t1.clone(), h1);
    table.request(t2.clone(), h2);
    assert_eq!(table.on_subscribe_sent(1), Ok(()));
    assert_eq!(table.on_subscribe_sent(2), Ok(()));
    // acknowledged out of order: each packet id still finds its own topic
    assert_eq!(table.on_suback(2), Ok(()));
    assert_eq!(table.lookup(&t2), Some(h2));
    assert_eq!(table.lookup(&t1), None);
    assert_eq!(table.on_suback(1), Ok(()));
    assert_eq!(table.lookup(&t1), Some(h1));
}

#[test]
fn unsubscribe_fails_loudly() {
    let mut table = SubscriptionTable::new();
    assert_eq!(
        table.unsubscribe(&"any/topic".to_string()),
        Err(SubscriptionError::UnsubscribeUnsupported)
    );
}

#[test]
fn unknown_topic_is_dropped() {
    let table = SubscriptionTable::new();
    assert!(matches!(
        table.dispatch(&"never/subscribed".to_string(), b"true"),
        DispatchOutcome::NoHandler
    ));
}

#[test]
fn payload_decode_bool_and_number() {
    assert_eq!(
        decode_zone_attribute(ZoneAttributeDiscriminants::Power, b"true"),
        Ok(ZoneAttribute::Power(true))
    );
    assert_eq!(
        decode_zone_attribute(ZoneAttributeDiscriminants::Mute, b"false"),
        Ok(ZoneAttribute::Mute(false))
    );
    assert_eq!(
        decode_zone_attribute(ZoneAttributeDiscriminants::Volume, b"17"),
        Ok(ZoneAttribute::Volume(17))
    );
    assert_eq!(
        decode_zone_attribute(ZoneAttributeDiscriminants::Volume, b"38"),
        Ok(ZoneAttribute::Volume(38))
    );
    assert_eq!(
        decode_zone_attribute(ZoneAttributeDiscriminants::Source, b"6"),
        Ok(ZoneAttribute::Source(6))
    );
}

#[test]
fn payload_decode_errors_are_distinct() {
    assert_eq!(
        decode_zone_attribute(ZoneAttributeDiscriminants::Volume, &[0xffu8, 0xfe]),
        Err(PayloadDecodeError::InvalidUtf8)
    );
    assert_eq!(
        decode_zone_attribute(ZoneAttributeDiscriminants::Volume, b"loud"),
        Err(PayloadDecodeError::InvalidJson)
    );
    assert_eq!(
        decode_zone_attribute(ZoneAttributeDiscriminants::Volume, b"true"),
        Err(PayloadDecodeError::InvalidJson)
    );
    assert_eq!(
        decode_zone_attribute(ZoneAttributeDiscriminants::Power, b"1000"),
        Err(PayloadDecodeError::InvalidJson)
    );
    assert_eq!(
        decode_zone_attribute(ZoneAttributeDiscriminants::Volume, b"300"),
        Err(PayloadDecodeError::InvalidJson)
    );
    // a value that parses but lies outside the attribute's range is a
    // decode error: the message is dropped and never reaches the device
    assert_eq!(
        decode_zone_attribute(ZoneAttributeDiscriminants::Volume, b"39"),
        Err(PayloadDecodeError::ValueOutOfRange)
    );
    assert_eq!(
        decode_zone_attribute(ZoneAttributeDiscriminants::Source, b"0"),
        Err(PayloadDecodeError::ValueOutOfRange)
    );
    assert_eq!(
        decode_zone_attribute(ZoneAttributeDiscriminants::Source, b"7"),
        Err(PayloadDecodeError::ValueOutOfRange)
    );
    assert_eq!(
        decode_zone_attribute(ZoneAttributeDiscriminants::Balance, b"21"),
        Err(PayloadDecodeError::ValueOutOfRange)
    );
}

#[test]
fn install_handlers_covers_writable_kinds_only() {
    let mut table = SubscriptionTable::new();
    let zones = vec![zone11(), ZoneId::Zone { amp: 1, zone: 2 }];
    let topics = install_zone_attribute_subscription_handlers(&zones, "mwha/", &mut table);
    assert_eq!(topics.len(), 16);
    assert_eq!(topics[0], "mwha/set/zone/11/power");
    assert_eq!(topics[7], "mwha/set/zone/11/source");
    assert_eq!(topics[8], "mwha/set/zone/12/power");
    assert!(topics.iter().all(|t| !t.ends_with("public-announcement")));
    assert!(topics.iter().all(|t| !t.ends_with("keypad-connected")));

    // drive them all to active, in order, and dispatch one change
    for (i, _) in topics.iter().enumerate() {
        assert_eq!(table.on_subscribe_sent(i as u16 + 1), Ok(()));
    }
    for (i, _) in topics.iter().enumerate() {
        assert_eq!(table.on_suback(i as u16 + 1), Ok(()));
    }
    assert_eq!(
        table.dispatch(&"mwha/set/zone/12/volume".to_string(), b"8"),
        DispatchOutcome::Change(ZoneId::Zone { amp: 1, zone: 2 }, ZoneAttribute::Volume(8))
    );
}

#[test]
fn session_events_drive_the_table() {
    let mut table = SubscriptionTable::new();
    let topic = "mwha/set/zone/11/volume".to_string();
    table.request(topic.clone(), volume_handler());

    assert_eq!(
        handle_session_event(&mut table, SessionEvent::ConnectionAcknowledged),
        SessionAction::SignalConnected
    );
    // a message before the acknowledgement is dropped as unknown
    assert_eq!(
        handle_session_event(
            &mut table,
            SessionEvent::MessageArrived { topic: topic.clone(), payload: b"20".to_vec() }
        ),
        SessionAction::DropUnknownTopic
    );
    assert_eq!(
        handle_session_event(&mut table, SessionEvent::SubscribeSent { pkid: 9 }),
        SessionAction::Continue
    );
    assert_eq!(
        handle_session_event(&mut table, SessionEvent::SubscribeAcknowledged { pkid: 9 }),
        SessionAction::Continue
    );
    // after the acknowledgement the same message is forwarded
    assert_eq!(
        handle_session_event(
            &mut table,
            SessionEvent::MessageArrived { topic: topic.clone(), payload: b"20".to_vec() }
        ),
        SessionAction::Forward(zone11(), ZoneAttribute::Volume(20))
    );
    // an undecodable payload is dropped with its decode error
    assert_eq!(
        handle_session_event(
            &mut table,
            SessionEvent::MessageArrived { topic: topic.clone(), payload: b"loud".to_vec() }
        ),
        SessionAction::DropMessage(PayloadDecodeError::InvalidJson)
    );
    // an out-of-range value is likewise dropped, never forwarded
    assert_eq!(
        handle_session_event(
            &mut table,
            SessionEvent::MessageArrived { topic, payload: b"39".to_vec() }
        ),
        SessionAction::DropMessage(PayloadDecodeError::ValueOutOfRange)
    );
    assert_eq!(
        handle_session_event(&mut table, SessionEvent::Disconnected),
        SessionAction::Exit
    );
    assert_eq!(
        handle_session_event(&mut table, SessionEvent::ConnectionFailed),
        SessionAction::SignalError
    );
}
