use gaia_sensor_logger::config::default_metrics;
use gaia_sensor_logger::ingest::{
    on_event, react, route, Action, Discard, LinkState, LoopEvent, Routing,
};
use gaia_sensor_logger::model::{Metadata, SensorData};
use gaia_sensor_logger::registry::Registry;

fn stock_registry() -> Registry<String> {
    let mut registry = Registry::new();
    for config in default_metrics() {
        assert!(registry.register(config.metric, config.collection));
    }
    registry
}

fn parse(payload: &str) -> Option<u32> {
    payload.parse::<f32>().ok().map(f32::to_bits)
}

fn publish(topic: &str, payload: &str) -> LoopEvent {
    LoopEvent::Publish { topic: topic.to_string(), reading: parse(payload) }
}

fn stored(routing: Routing<'_, String>) -> (String, String, SensorData) {
    match routing {
        Routing::Store { metric, collection, record } => (metric, collection.clone(), record),
        Routing::Drop(reason) => panic!("dropped: {:?}", reason),
    }
}

fn dropped(routing: Routing<'_, String>) -> Discard {
    match routing {
        Routing::Store { record, .. } => panic!("stored: {:?}", record),
        Routing::Drop(reason) => reason,
    }
}

fn now_millis() -> i64 {
    let since_epoch = std::time::SystemTime::now()
        .duration_since(std::time::UNIX_EPOCH)
        .expect("the clock is set after 1970");
    since_epoch.as_millis() as i64
}

#[test]
fn a_numeric_payload_is_stored() {
    let registry = stock_registry();
    let (metric, collection, record) =
        stored(route(&registry, "device1/ph", parse("7.20"), 1_700_000_000_000));
    assert_eq!(metric, "ph");
    assert_eq!(collection, "sensor-ph");
    assert_eq!(
        record,
        SensorData {
            metadata: Metadata { device_id: "device1".to_string() },
            timestamp: 1_700_000_000_000,
            data: 7.20f32.to_bits(),
        }
    );
    assert_eq!(f32::from_bits(record.data), 7.20);
}

#[test]
fn a_non_numeric_payload_is_dropped() {
    let registry = stock_registry();
    assert_eq!(parse("abc"), None);
    assert_eq!(
        dropped(route(&registry, "device1/ph", parse("abc"), 1_700_000_000_000)),
        Discard::MalformedPayload
    );
    assert_eq!(dropped(route(&registry, "device1/ph", parse(""), 0)), Discard::MalformedPayload);
    assert_eq!(
        dropped(route(&registry, "device1/ph", parse("7,20"), 0)),
        Discard::MalformedPayload
    );
}

#[test]
fn the_loop_stays_healthy_after_a_bad_payload() {
    let registry = stock_registry();
    let (state, action) =
        react(LinkState::Receiving, &publish("device1/ph", "abc"), &registry, 1_000);
    assert_eq!(state, LinkState::Receiving);
    match action {
        Action::Ingest(routing) => assert_eq!(dropped(routing), Discard::MalformedPayload),
        _ => panic!("a message is routed"),
    }
    let (state, action) = react(state, &publish("device1/ph", "7.20"), &registry, 2_000);
    assert_eq!(state, LinkState::Receiving);
    match action {
        Action::Ingest(routing) => {
            let (metric, _, record) = stored(routing);
            assert_eq!(metric, "ph");
            assert_eq!(record.timestamp, 2_000);
            assert_eq!(f32::from_bits(record.data), 7.20);
        },
        _ => panic!("a message is routed"),
    }
}

#[test]
fn a_topic_without_separator_is_dropped() {
    let registry = stock_registry();
    assert_eq!(dropped(route(&registry, "device1", parse("7.20"), 0)), Discard::MalformedTopic);
    assert_eq!(dropped(route(&registry, "", parse("7.20"), 0)), Discard::MalformedTopic);
}

#[test]
fn the_topic_is_judged_before_the_payload() {
    let registry = stock_registry();
    assert_eq!(dropped(route(&registry, "device1", parse("abc"), 0)), Discard::MalformedTopic);
}

#[test]
fn the_payload_is_judged_before_the_metric() {
    let registry = stock_registry();
    assert_eq!(
        dropped(route(&registry, "device1/salinity", parse("abc"), 0)),
        Discard::MalformedPayload
    );
}

#[test]
fn an_unregistered_metric_is_dropped() {
    let registry = stock_registry();
    assert_eq!(
        dropped(route(&registry, "device1/salinity", parse("35.1"), 0)),
        Discard::UnknownMetric
    );
    assert_eq!(dropped(route(&registry, "device1/", parse("35.1"), 0)), Discard::UnknownMetric);
    assert_eq!(
        dropped(route(&registry, "device1/ph/raw", parse("35.1"), 0)),
        Discard::UnknownMetric
    );
}

#[test]
fn the_loop_goes_on_after_an_unregistered_metric() {
    let registry = stock_registry();
    let (state, action) =
        react(LinkState::Subscribed, &publish("device1/salinity", "35.1"), &registry, 10);
    assert_eq!(state, LinkState::Receiving);
    match action {
        Action::Ingest(routing) => assert_eq!(dropped(routing), Discard::UnknownMetric),
        _ => panic!("a message is routed"),
    }
    let (state, action) = react(state, &publish("device2/ec", "1.5"), &registry, 20);
    assert_eq!(state, LinkState::Receiving);
    match action {
        Action::Ingest(routing) => {
            let (metric, collection, record) = stored(routing);
            assert_eq!(metric, "ec");
            assert_eq!(collection, "sensor-ec");
            assert_eq!(record.metadata.device_id, "device2");
            assert_eq!(record.timestamp, 20);
            assert_eq!(record.data, 1.5f32.to_bits());
        },
        _ => panic!("a message is routed"),
    }
}

#[test]
fn the_record_carries_device_value_and_instant() {
    let registry = stock_registry();
    for (topic, payload, now) in [
        ("device1/ec", "0", 0i64),
        ("d/tds", "-12.5", -1),
        ("greenhouse-7/tempC", "1e3", i64::MAX),
        ("/ph", "+6.02", i64::MIN),
    ] {
        let (_, _, record) = stored(route(&registry, topic, parse(payload), now));
        assert_eq!(record.metadata.device_id, topic.split('/').next().unwrap());
        assert_eq!(record.timestamp, now);
        assert_eq!(record.data, payload.parse::<f32>().unwrap().to_bits());
    }
}

#[test]
fn an_unknown_device_is_trusted() {
    let registry = stock_registry();
    let (_, _, record) = stored(route(&registry, "never-seen-before/ph", parse("7"), 5));
    assert_eq!(record.metadata.device_id, "never-seen-before");
}

#[test]
fn every_state_accepts_every_event() {
    let registry = stock_registry();
    let states = [LinkState::Connecting, LinkState::Subscribed, LinkState::Receiving];
    for state in states {
        let (next, action) = react(state, &LoopEvent::Connected, &registry, 0);
        assert_eq!(next, LinkState::Subscribed);
        assert!(matches!(action, Action::Idle));

        let (next, action) = react(state, &publish("device1/ph", "7.20"), &registry, 0);
        assert_eq!(next, LinkState::Receiving);
        assert!(matches!(action, Action::Ingest(Routing::Store { .. })));

        let (next, action) = react(state, &LoopEvent::ConnectionError, &registry, 0);
        assert_eq!(next, LinkState::Connecting);
        assert!(matches!(action, Action::Reconnect));

        let (next, action) = react(state, &LoopEvent::Other, &registry, 0);
        assert_eq!(next, state);
        assert!(matches!(action, Action::Idle));

        let (next, action) = react(state, &LoopEvent::WriteFailed, &registry, 0);
        assert_eq!(next, state);
        assert!(matches!(action, Action::Idle));
    }
}

#[test]
fn the_loop_walks_from_connecting_to_receiving_and_back() {
    let registry = stock_registry();
    let mut state = LinkState::Connecting;
    let turns = [
        (LoopEvent::Connected, LinkState::Subscribed),
        (LoopEvent::Other, LinkState::Subscribed),
        (publish("device1/ph", "7.20"), LinkState::Receiving),
        (publish("device1/ec", "x"), LinkState::Receiving),
        (LoopEvent::WriteFailed, LinkState::Receiving),
        (LoopEvent::ConnectionError, LinkState::Connecting),
        (LoopEvent::ConnectionError, LinkState::Connecting),
        (LoopEvent::Connected, LinkState::Subscribed),
    ];
    for (event, expected) in turns {
        let (next, _) = react(state, &event, &registry, 0);
        assert_eq!(next, expected);
        state = next;
    }
}

#[test]
fn on_event_stamps_the_record_with_the_time_of_reception() {
    let registry = stock_registry();
    let before = now_millis();
    let (state, action) = on_event(LinkState::Subscribed, &publish("device1/ph", "7.20"), &registry);
    let after = now_millis();
    assert_eq!(state, LinkState::Receiving);
    match action {
        Action::Ingest(routing) => {
            let (metric, collection, record) = stored(routing);
            assert_eq!(metric, "ph");
            assert_eq!(collection, "sensor-ph");
            assert_eq!(record.metadata.device_id, "device1");
            assert_eq!(record.data, 7.20f32.to_bits());
            assert!(before <= record.timestamp && record.timestamp <= after);
        },
        _ => panic!("a message is routed"),
    }
}

#[test]
fn on_event_decides_as_react_does() {
    let registry = stock_registry();
    let (state, action) = on_event(LinkState::Receiving, &LoopEvent::ConnectionError, &registry);
    assert_eq!(state, LinkState::Connecting);
    assert!(matches!(action, Action::Reconnect));
    let (state, action) = on_event(state, &LoopEvent::Connected, &registry);
    assert_eq!(state, LinkState::Subscribed);
    assert!(matches!(action, Action::Idle));
    let (state, action) = on_event(state, &publish("device1", "7.20"), &registry);
    assert_eq!(state, LinkState::Receiving);
    assert!(matches!(action, Action::Ingest(Routing::Drop(Discard::MalformedTopic))));
}
