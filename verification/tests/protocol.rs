use growntrol::{kind_suffix_str, subscription_filter};
use growntrol::{
    availability_from_word, check_acknowledgement, check_telemetry, parse_device_topic,
    Availability, DeviceTopicKind, DeviceTopics, PayloadRejection, MQTT_ROOT,
};

#[test]
fn creates_stable_versioned_topics() {
    let topics = DeviceTopics::new("grow-room-1");
    assert_eq!(
        topics.telemetry,
        "growntrol/v1/devices/grow-room-1/telemetry"
    );
    assert_eq!(
        topics.desired_config,
        "growntrol/v1/devices/grow-room-1/config/desired"
    );
}

#[test]
fn parses_known_device_topics() {
    assert_eq!(
        parse_device_topic("growntrol/v1/devices/esp32-a/acks"),
        Some(("esp32-a", DeviceTopicKind::Acknowledgement))
    );
    assert_eq!(
        parse_device_topic("growntrol/v1/devices/esp32-a/config/reported"),
        Some(("esp32-a", DeviceTopicKind::ReportedConfig))
    );
}

#[test]
fn rejects_unknown_or_incomplete_topics() {
    assert_eq!(parse_device_topic("growntrol/v1/devices//telemetry"), None);
    assert_eq!(
        parse_device_topic("growntrol/v1/devices/esp32-a/unknown"),
        None
    );
}

#[test]
fn every_built_topic_parses_back() {
    let topics = DeviceTopics::new("dev-ü");
    let expected = [
        (&topics.availability, DeviceTopicKind::Availability),
        (&topics.telemetry, DeviceTopicKind::Telemetry),
        (&topics.events, DeviceTopicKind::Event),
        (&topics.commands, DeviceTopicKind::Command),
        (&topics.acknowledgements, DeviceTopicKind::Acknowledgement),
        (&topics.desired_config, DeviceTopicKind::DesiredConfig),
        (&topics.reported_config, DeviceTopicKind::ReportedConfig),
    ];
    for (topic, kind) in expected {
        assert_eq!(parse_device_topic(topic), Some(("dev-ü", kind)));
    }
    assert_eq!(topics.acknowledgements, "growntrol/v1/devices/dev-ü/acks");
    assert_eq!(MQTT_ROOT, "growntrol/v1/devices");
}

#[test]
fn rejects_foreign_roots_and_nested_device_levels() {
    assert_eq!(parse_device_topic(""), None);
    assert_eq!(parse_device_topic("growntrol/v1/devices"), None);
    assert_eq!(parse_device_topic("growntrol/v1/devices/a"), None);
    assert_eq!(parse_device_topic("growntrol/v2/devices/a/telemetry"), None);
    assert_eq!(parse_device_topic("growntrol/v1/devicesX/a/telemetry"), None);
    assert_eq!(parse_device_topic("growntrol/v1/devices/a/b/telemetry"), None);
    assert_eq!(parse_device_topic("growntrol/v1/devices/a/telemetry/"), None);
    assert_eq!(parse_device_topic("growntrol/v1/devices/a/config"), None);
}

#[test]
fn payload_checks_match_device_and_schema() {
    assert_eq!(check_telemetry("a", "a", 1), Ok(()));
    assert_eq!(check_telemetry("a", "b", 1), Err(PayloadRejection::DeviceMismatch));
    assert_eq!(check_telemetry("a", "b", 2), Err(PayloadRejection::DeviceMismatch));
    assert_eq!(check_telemetry("a", "a", 2), Err(PayloadRejection::UnsupportedSchemaVersion));
    assert_eq!(check_acknowledgement("a", "a"), Ok(()));
    assert_eq!(check_acknowledgement("a", "ab"), Err(PayloadRejection::DeviceMismatch));
}

#[test]
fn availability_words() {
    assert_eq!(availability_from_word("online"), Some(Availability::Online));
    assert_eq!(availability_from_word("offline"), Some(Availability::Offline));
    assert_eq!(availability_from_word("Online"), None);
    assert_eq!(availability_from_word(""), None);
}

#[test]
fn backend_subscriptions_cover_every_device() {
    assert_eq!(
        subscription_filter(DeviceTopicKind::Availability),
        "growntrol/v1/devices/+/availability"
    );
    assert_eq!(subscription_filter(DeviceTopicKind::Acknowledgement), "growntrol/v1/devices/+/acks");
    assert_eq!(kind_suffix_str(DeviceTopicKind::ReportedConfig), "config/reported");
    assert_eq!(kind_suffix_str(DeviceTopicKind::Event), "events");
}
