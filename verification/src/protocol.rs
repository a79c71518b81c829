//! The versioned MQTT contract shared by devices, the backend and the
//! simulator: topic names and command payloads.
use vstd::prelude::*;

verus! {

/// Root of every device topic.
pub const MQTT_ROOT: &'static str = "growntrol/v1/devices";

/// Version of the command, telemetry and acknowledgement payloads.
pub const SCHEMA_VERSION: u16 = 1;

/// Characters of the topic root.
pub open spec fn root_path() -> Seq<char> {
    MQTT_ROOT@
}

/// Topic prefix of one device: `{root}/{device_id}`.
pub open spec fn device_prefix(device_id: Seq<char>) -> Seq<char> {
    root_path() + "/"@ + device_id
}

/// Full topic of one device: `{root}/{device_id}/{suffix}`.
pub open spec fn device_topic_path(device_id: Seq<char>, suffix: Seq<char>) -> Seq<char> {
    device_prefix(device_id) + "/"@ + suffix
}

/// The kinds of device topic.
#[derive(Debug, Clone, Copy, PartialEq, Eq, Structural)]
pub enum DeviceTopicKind {
    Availability,
    Telemetry,
    Event,
    Command,
    Acknowledgement,
    DesiredConfig,
    ReportedConfig,
}

/// The topic suffix of each kind.
pub open spec fn kind_suffix(kind: DeviceTopicKind) -> Seq<char> {
    match kind {
        DeviceTopicKind::Availability => "availability"@,
        DeviceTopicKind::Telemetry => "telemetry"@,
        DeviceTopicKind::Event => "events"@,
        DeviceTopicKind::Command => "commands"@,
        DeviceTopicKind::Acknowledgement => "acks"@,
        DeviceTopicKind::DesiredConfig => "config/desired"@,
        DeviceTopicKind::ReportedConfig => "config/reported"@,
    }
}

/// A device identifier names exactly one topic level: it is non-empty and
/// holds no `/`.
pub open spec fn valid_device_id(device_id: Seq<char>) -> bool {
    device_id.len() > 0 && !device_id.contains('/')
}

/// The topic of kind `kind` for `device_id`.
pub open spec fn device_topic(device_id: Seq<char>, kind: DeviceTopicKind) -> Seq<char> {
    device_topic_path(device_id, kind_suffix(kind))
}

/// Every topic of one device.
#[derive(Debug, Clone, PartialEq, Eq)]
pub struct DeviceTopics {
    pub availability: String,
    pub telemetry: String,
    pub events: String,
    pub commands: String,
    pub acknowledgements: String,
    pub desired_config: String,
    pub reported_config: String,
}

/// `a@ == b@`, decided character by character.
pub(crate) fn str_equal(a: &str, b: &str) -> (equal: bool)
    ensures
        equal == (a@ == b@),
{
    let n = a.unicode_len();
    if n != b.unicode_len() {
        return false;
    }
    let mut i: usize = 0;
    while i < n
        invariant
            n == a@.len() == b@.len(),
            i <= n,
            forall|j: int| 0 <= j < i ==> a@[j] == b@[j],
        decreases n - i,
    {
        if a.get_char(i) != b.get_char(i) {
            return false;
        }
        i += 1;
    }
    proof {
        assert(a@ =~= b@);
    }
    true
}

/// The topic `{prefix}/{suffix}` as an owned string.
fn topic_with_suffix(prefix: &String, suffix: &str) -> (topic: String)
    ensures
        topic@ == prefix@ + "/"@ + suffix@,
{
    let topic = prefix.clone().concat("/");
    topic.concat(suffix)
}

impl DeviceTopics {
    /// The topics of `device_id`.
    pub fn new(device_id: &str) -> (topics: Self)
        ensures
            topics.availability@ == device_topic(device_id@, DeviceTopicKind::Availability),
            topics.telemetry@ == device_topic(device_id@, DeviceTopicKind::Telemetry),
            topics.events@ == device_topic(device_id@, DeviceTopicKind::Event),
            topics.commands@ == device_topic(device_id@, DeviceTopicKind::Command),
            topics.acknowledgements@ == device_topic(device_id@, DeviceTopicKind::Acknowledgement),
            topics.desired_config@ == device_topic(device_id@, DeviceTopicKind::DesiredConfig),
            topics.reported_config@ == device_topic(device_id@, DeviceTopicKind::ReportedConfig),
    {
        let prefix = String::from_str(MQTT_ROOT).concat("/").concat(device_id);
        DeviceTopics {
            availability: topic_with_suffix(&prefix, "availability"),
            telemetry: topic_with_suffix(&prefix, "telemetry"),
            events: topic_with_suffix(&prefix, "events"),
            commands: topic_with_suffix(&prefix, "commands"),
            acknowledgements: topic_with_suffix(&prefix, "acks"),
            desired_config: topic_with_suffix(&prefix, "config/desired"),
            reported_config: topic_with_suffix(&prefix, "config/reported"),
        }
    }
}

/// The kind whose suffix is exactly `suffix`.
fn suffix_kind(suffix: &str) -> (kind: Option<DeviceTopicKind>)
    ensures
        kind matches Some(k) ==> suffix@ == kind_suffix(k),
        kind is None ==> forall|k: DeviceTopicKind| suffix@ != #[trigger] kind_suffix(k),
{
    if str_equal(suffix, "availability") {
        Some(DeviceTopicKind::Availability)
    } else if str_equal(suffix, "telemetry") {
        Some(DeviceTopicKind::Telemetry)
    } else if str_equal(suffix, "events") {
        Some(DeviceTopicKind::Event)
    } else if str_equal(suffix, "commands") {
        Some(DeviceTopicKind::Command)
    } else if str_equal(suffix, "acks") {
        Some(DeviceTopicKind::Acknowledgement)
    } else if str_equal(suffix, "config/desired") {
        Some(DeviceTopicKind::DesiredConfig)
    } else if str_equal(suffix, "config/reported") {
        Some(DeviceTopicKind::ReportedConfig)
    } else {
        proof {
            assert forall|k: DeviceTopicKind| suffix@ != #[trigger] kind_suffix(k) by {
                match k {
                    DeviceTopicKind::Availability => {},
                    DeviceTopicKind::Telemetry => {},
                    DeviceTopicKind::Event => {},
                    DeviceTopicKind::Command => {},
                    DeviceTopicKind::Acknowledgement => {},
                    DeviceTopicKind::DesiredConfig => {},
                    DeviceTopicKind::ReportedConfig => {},
                }
            }
        }
        None
    }
}

/// Splits a device topic into its device identifier and kind; anything that
/// is not `{root}/{device_id}/{known suffix}` with a one-level, non-empty
/// device identifier is refused.
pub fn parse_device_topic(topic: &str) -> (parsed: Option<(&str, DeviceTopicKind)>)
    ensures
        parsed matches Some((device_id, kind)) ==> valid_device_id(device_id@) && topic@
            == device_topic(device_id@, kind),
        parsed is None ==> forall|device_id: Seq<char>, kind: DeviceTopicKind|
            valid_device_id(device_id) ==> topic@ != #[trigger] device_topic(device_id, kind),
{
    let n = topic.unicode_len();
    let root_len = MQTT_ROOT.unicode_len();
    let ghost t = topic@;
    proof {
        reveal_strlit("growntrol/v1/devices");
        reveal_strlit("/");
    }
    if n <= root_len + 1 {
        proof {
            assert forall|device_id: Seq<char>, kind: DeviceTopicKind|
                valid_device_id(device_id) implies t != #[trigger] device_topic(device_id, kind) by {
                if t == device_topic(device_id, kind) {
                    assert(t.len() == root_len + 1 + device_id.len() + 1 + kind_suffix(kind).len());
                }
            }
        }
        return None;
    }
    let root = topic.substring_char(0, root_len);
    let separator = topic.get_char(root_len);
    if !str_equal(root, MQTT_ROOT) || separator != '/' {
        proof {
            assert forall|device_id: Seq<char>, kind: DeviceTopicKind|
                valid_device_id(device_id) implies t != #[trigger] device_topic(device_id, kind) by {
                if t == device_topic(device_id, kind) {
                    assert(t.subrange(0, root_len as int) =~= root_path());
                    assert(t[root_len as int] == "/"@[0]);
                }
            }
        }
        return None;
    }
    let start = root_len + 1;
    let mut end = start;
    while end < n && topic.get_char(end) != '/'
        invariant
            start <= end <= n,
            n == t.len(),
            t == topic@,
            forall|j: int| start <= j < end ==> t[j] != '/',
        decreases n - end,
    {
        end += 1;
    }
    proof {
        // Any well-formed reading of the topic puts its second separator here.
        assert forall|device_id: Seq<char>, kind: DeviceTopicKind|
            valid_device_id(device_id) && t == #[trigger] device_topic(device_id, kind) implies end
            == start + device_id.len() && t.subrange(start as int, end as int) == device_id
            && t.subrange(end + 1, n as int) == kind_suffix(kind) by {
            let e = start + device_id.len();
            assert forall|j: int| start <= j < e implies t[j] != '/' by {
                assert(t[j] == device_id[j - start]);
                if t[j] == '/' {
                    assert(device_id.contains('/'));
                }
            }
            assert(t[e] == '/');
            if end < e {
                assert(t[end as int] == device_id[end - start]);
                assert(device_id.contains('/'));
            }
            assert(t.subrange(start as int, e) =~= device_id);
            assert(t.subrange(e + 1, n as int) =~= kind_suffix(kind));
        }
    }
    if end == n || end == start {
        proof {
            assert forall|device_id: Seq<char>, kind: DeviceTopicKind|
                valid_device_id(device_id) implies t != #[trigger] device_topic(device_id, kind) by {
                if t == device_topic(device_id, kind) {
                    assert(end == start + device_id.len());
                    assert(t.len() == start + device_id.len() + 1 + kind_suffix(kind).len());
                }
            }
        }
        return None;
    }
    let device_id = topic.substring_char(start, end);
    let suffix = topic.substring_char(end + 1, n);
    match suffix_kind(suffix) {
        Some(kind) => {
            proof {
                assert(!device_id@.contains('/')) by {
                    if device_id@.contains('/') {
                        let j = choose|j: int| 0 <= j < device_id@.len() && device_id@[j] == '/';
                        assert(t[start + j] == '/');
                    }
                }
                assert(t =~= device_topic(device_id@, kind)) by {
                    assert(t.subrange(0, root_len as int) == root_path());
                    assert(t =~= t.subrange(0, root_len as int) + "/"@ + t.subrange(
                        start as int,
                        end as int,
                    ) + "/"@ + t.subrange(end + 1, n as int));
                }
            }
            Some((device_id, kind))
        },
        None => {
            proof {
                assert forall|device_id: Seq<char>, kind: DeviceTopicKind|
                    valid_device_id(device_id) implies t != #[trigger] device_topic(device_id, kind) by {
                    if t == device_topic(device_id, kind) {
                        assert(suffix@ == kind_suffix(kind));
                    }
                }
            }
            None
        },
    }
}

/// The topic names, spelled out character by character: the root is
/// `growntrol/v1/devices`, the suffixes are `availability`, `telemetry`,
/// `events`, `commands`, `acks`, `config/desired` and `config/reported`, so
/// the command topic of device `d` is `growntrol/v1/devices/d/commands`.
pub proof fn lemma_topic_names_spelled_out(device_id: Seq<char>)
    ensures
        root_path() == seq!['g', 'r', 'o', 'w', 'n', 't', 'r', 'o', 'l', '/', 'v', '1', '/', 'd', 'e', 'v', 'i', 'c', 'e', 's'],
        kind_suffix(DeviceTopicKind::Availability) == seq!['a', 'v', 'a', 'i', 'l', 'a', 'b', 'i', 'l', 'i', 't', 'y'],
        kind_suffix(DeviceTopicKind::Telemetry) == seq!['t', 'e', 'l', 'e', 'm', 'e', 't', 'r', 'y'],
        kind_suffix(DeviceTopicKind::Event) == seq!['e', 'v', 'e', 'n', 't', 's'],
        kind_suffix(DeviceTopicKind::Command) == seq!['c', 'o', 'm', 'm', 'a', 'n', 'd', 's'],
        kind_suffix(DeviceTopicKind::Acknowledgement) == seq!['a', 'c', 'k', 's'],
        kind_suffix(DeviceTopicKind::DesiredConfig) == seq!['c', 'o', 'n', 'f', 'i', 'g', '/', 'd', 'e', 's', 'i', 'r', 'e', 'd'],
        kind_suffix(DeviceTopicKind::ReportedConfig) == seq!['c', 'o', 'n', 'f', 'i', 'g', '/', 'r', 'e', 'p', 'o', 'r', 't', 'e', 'd'],
        device_topic(device_id, DeviceTopicKind::Command) == seq!['g', 'r', 'o', 'w', 'n', 't', 'r', 'o', 'l', '/', 'v', '1', '/', 'd', 'e', 'v', 'i', 'c', 'e', 's', '/'] + device_id + seq!['/', 'c', 'o', 'm', 'm', 'a', 'n', 'd', 's'],
{
    reveal_strlit("growntrol/v1/devices");
    reveal_strlit("/");
    reveal_strlit("availability");
    reveal_strlit("telemetry");
    reveal_strlit("events");
    reveal_strlit("commands");
    reveal_strlit("acks");
    reveal_strlit("config/desired");
    reveal_strlit("config/reported");
    assert(device_topic(device_id, DeviceTopicKind::Command) =~= seq!['g', 'r', 'o', 'w', 'n', 't', 'r', 'o', 'l', '/', 'v', '1', '/', 'd', 'e', 'v', 'i', 'c', 'e', 's', '/'] + device_id + seq!['/', 'c', 'o', 'm', 'm', 'a', 'n', 'd', 's']);
}

/// Two well-formed device topics are equal only when they name the same
/// device and kind, so [`parse_device_topic`] gives back exactly what
/// [`DeviceTopics::new`] was built from.
pub proof fn lemma_device_topic_unique(
    id1: Seq<char>,
    kind1: DeviceTopicKind,
    id2: Seq<char>,
    kind2: DeviceTopicKind,
)
    requires
        valid_device_id(id1),
        valid_device_id(id2),
        device_topic(id1, kind1) == device_topic(id2, kind2),
    ensures
        id1 == id2,
        kind1 == kind2,
{
    reveal_strlit("growntrol/v1/devices");
    reveal_strlit("/");
    reveal_strlit("availability");
    reveal_strlit("telemetry");
    reveal_strlit("events");
    reveal_strlit("commands");
    reveal_strlit("acks");
    reveal_strlit("config/desired");
    reveal_strlit("config/reported");
    let t = device_topic(id1, kind1);
    let start: int = root_path().len() as int + 1;
    // The second separator sits right after each identifier.
    if id1.len() < id2.len() {
        assert(t[start + id1.len() as int] == '/');
        assert(t[start + id1.len() as int] == id2[id1.len() as int]);
        assert(id2.contains('/'));
    } else if id2.len() < id1.len() {
        assert(t[start + id2.len() as int] == '/');
        assert(t[start + id2.len() as int] == id1[id2.len() as int]);
        assert(id1.contains('/'));
    }
    assert(id1 =~= t.subrange(start, start + id1.len() as int));
    assert(id2 =~= t.subrange(start, start + id2.len() as int));
    assert(kind_suffix(kind1) =~= t.subrange(start + id1.len() as int + 1, t.len() as int));
    assert(kind_suffix(kind2) =~= t.subrange(start + id2.len() as int + 1, t.len() as int));
    assert(kind_suffix(kind1) == kind_suffix(kind2));
    match kind1 {
        DeviceTopicKind::Availability => {},
        DeviceTopicKind::Telemetry => {},
        DeviceTopicKind::Event => {},
        DeviceTopicKind::Command => {},
        DeviceTopicKind::Acknowledgement => {},
        DeviceTopicKind::DesiredConfig => {},
        DeviceTopicKind::ReportedConfig => {},
    }
}

/// Reported reachability of a device.
#[derive(Debug, Clone, Copy, PartialEq, Eq, Structural)]
pub enum Availability {
    Online,
    Offline,
}

/// Tank state as published in telemetry.
#[derive(Debug, Clone, Copy, PartialEq, Eq, Structural)]
pub enum TankStatus {
    Unknown,
    WaterAvailable,
    WaterLow,
    SensorFault,
}

/// Irrigation phase as published in telemetry.
#[derive(Debug, Clone, Copy, PartialEq, Eq, Structural)]
pub enum IrrigationStatus {
    Idle,
    CheckingTank,
    Pumping,
    Absorbing,
    Complete,
    Blocked,
}

/// The actuator a manual override applies to.
#[derive(Debug, Clone, Copy, PartialEq, Eq, Structural)]
pub enum OverrideTarget {
    Lights,
    Fans,
}

/// A manual override: back to automatic control, forced on, or forced off.
#[derive(Debug, Clone, Copy, PartialEq, Eq, Structural)]
pub enum OverrideMode {
    Auto,
    On,
    Off,
}

/// A request sent to a device; irrigation start is a request, never an
/// unconditional pump command.
#[derive(Debug, Clone, Copy, PartialEq, Eq, Structural)]
pub enum DeviceCommand {
    SetOverride { target: OverrideTarget, mode: OverrideMode, duration_seconds: Option<u32> },
    StartIrrigationCycle,
    CancelIrrigation,
    RequestSnapshot,
}

/// A command with its unique identifier and issue time.
#[derive(Debug, Clone, PartialEq, Eq)]
pub struct CommandEnvelope {
    pub schema_version: u16,
    pub command_id: String,
    pub issued_at_unix_ms: u64,
    pub command: DeviceCommand,
}

/// A device's answer to one command.
#[derive(Debug, Clone, PartialEq, Eq)]
pub struct CommandAcknowledgement {
    pub schema_version: u16,
    pub device_id: String,
    pub command_id: String,
    pub accepted: bool,
    pub reason: Option<String>,
    pub acknowledged_at_unix_ms: Option<u64>,
}

/// Why the backend refuses a decoded payload.
#[derive(Debug, Clone, Copy, PartialEq, Eq, Structural)]
pub enum PayloadRejection {
    /// The payload names another device than its topic.
    DeviceMismatch,
    /// The payload uses a schema version this backend does not know.
    UnsupportedSchemaVersion,
}

/// Accepts a telemetry payload only when it names the device of its topic
/// and uses the supported schema version; the device check comes first.
pub fn check_telemetry(topic_device_id: &str, payload_device_id: &str, schema_version: u16) -> (result: Result<(), PayloadRejection>)
    ensures
        result == (if payload_device_id@ != topic_device_id@ {
            Err(PayloadRejection::DeviceMismatch)
        } else if schema_version != SCHEMA_VERSION {
            Err(PayloadRejection::UnsupportedSchemaVersion)
        } else {
            Ok(())
        }),
{
    if !str_equal(payload_device_id, topic_device_id) {
        return Err(PayloadRejection::DeviceMismatch);
    }
    if schema_version != SCHEMA_VERSION {
        return Err(PayloadRejection::UnsupportedSchemaVersion);
    }
    Ok(())
}

/// Accepts an acknowledgement only when it names the device of its topic.
pub fn check_acknowledgement(topic_device_id: &str, payload_device_id: &str) -> (result: Result<(), PayloadRejection>)
    ensures
        result == (if payload_device_id@ != topic_device_id@ {
            Err(PayloadRejection::DeviceMismatch)
        } else {
            Ok(())
        }),
{
    if !str_equal(payload_device_id, topic_device_id) {
        return Err(PayloadRejection::DeviceMismatch);
    }
    Ok(())
}

/// The availability named by a plain-text payload (already trimmed):
/// `online` or `offline`.
pub fn availability_from_word(word: &str) -> (availability: Option<Availability>)
    ensures
        availability == (if word@ == "online"@ {
            Some(Availability::Online)
        } else if word@ == "offline"@ {
            Some(Availability::Offline)
        } else {
            None
        }),
{
    if str_equal(word, "online") {
        Some(Availability::Online)
    } else if str_equal(word, "offline") {
        Some(Availability::Offline)
    } else {
        None
    }
}

/// The topic suffix of `kind`.
pub fn kind_suffix_str(kind: DeviceTopicKind) -> (suffix: &'static str)
    ensures
        suffix@ == kind_suffix(kind),
{
    match kind {
        DeviceTopicKind::Availability => "availability",
        DeviceTopicKind::Telemetry => "telemetry",
        DeviceTopicKind::Event => "events",
        DeviceTopicKind::Command => "commands",
        DeviceTopicKind::Acknowledgement => "acks",
        DeviceTopicKind::DesiredConfig => "config/desired",
        DeviceTopicKind::ReportedConfig => "config/reported",
    }
}

/// The wildcard subscription that matches the topic of `kind` of every
/// device: `{root}/+/{suffix}`.
pub fn subscription_filter(kind: DeviceTopicKind) -> (filter: String)
    ensures
        filter@ == root_path() + "/+/"@ + kind_suffix(kind),
{
    String::from_str(MQTT_ROOT).concat("/+/").concat(kind_suffix_str(kind))
}

} // verus!
