use growntrol::{ingest_kind, DeviceTopicKind, IngestKind};
use growntrol::{Availability, DeviceRegistry, DeviceUpdate};

type Registry = DeviceRegistry<String, String, u32>;

#[test]
fn telemetry_makes_a_device_appear_online() {
    let mut registry = Registry::new();
    assert!(registry.get("esp32-a").is_none());
    registry.apply("esp32-a", DeviceUpdate::Telemetry("snapshot-1".to_owned()), 1000);
    let record = registry.get("esp32-a").expect("device appears");
    assert_eq!(record.device_id, "esp32-a");
    assert_eq!(record.availability, Availability::Online);
    assert_eq!(record.telemetry.as_deref(), Some("snapshot-1"));
    assert_eq!(record.latest_acknowledgement, None);
    assert_eq!(record.last_seen_unix_ms, 1000);
}

#[test]
fn updates_replace_only_their_own_field() {
    let mut registry = Registry::new();
    registry.apply("b", DeviceUpdate::Availability(Availability::Online), 1);
    registry.apply("b", DeviceUpdate::Event(7), 2);
    registry.apply("b", DeviceUpdate::Acknowledgement("ack".to_owned()), 3);
    registry.apply("b", DeviceUpdate::Availability(Availability::Offline), 4);
    let record = registry.get("b").unwrap();
    assert_eq!(record.availability, Availability::Offline);
    assert_eq!(record.latest_event, Some(7));
    assert_eq!(record.latest_acknowledgement.as_deref(), Some("ack"));
    assert_eq!(record.telemetry, None);
    assert_eq!(record.last_seen_unix_ms, 4);
}

#[test]
fn first_message_of_any_kind_creates_an_offline_record() {
    let mut registry = Registry::new();
    registry.apply("c", DeviceUpdate::Event(1), 5);
    let record = registry.get("c").unwrap();
    assert_eq!(record.availability, Availability::Offline);
    assert_eq!(record.latest_event, Some(1));
}

#[test]
fn records_are_listed_by_identifier_without_duplicates() {
    let mut registry = Registry::new();
    for (id, at) in [("zeta", 1), ("alpha", 2), ("mid", 3), ("alpha", 4), ("Zulu", 5), ("alphabet", 6)] {
        registry.apply(id, DeviceUpdate::Event(at), at as u64);
    }
    let ids: Vec<&str> = registry.records().iter().map(|r| r.device_id.as_str()).collect();
    assert_eq!(ids, vec!["Zulu", "alpha", "alphabet", "mid", "zeta"]);
    assert_eq!(registry.get("alpha").unwrap().latest_event, Some(4));
    assert!(registry.get("alph").is_none());
}

#[test]
fn backend_ingests_only_device_reports() {
    assert_eq!(ingest_kind(DeviceTopicKind::Telemetry), Some(IngestKind::Telemetry));
    assert_eq!(ingest_kind(DeviceTopicKind::Availability), Some(IngestKind::Availability));
    assert_eq!(ingest_kind(DeviceTopicKind::Acknowledgement), Some(IngestKind::Acknowledgement));
    assert_eq!(ingest_kind(DeviceTopicKind::Event), Some(IngestKind::Event));
    assert_eq!(ingest_kind(DeviceTopicKind::Command), None);
    assert_eq!(ingest_kind(DeviceTopicKind::DesiredConfig), None);
    assert_eq!(ingest_kind(DeviceTopicKind::ReportedConfig), None);
}
