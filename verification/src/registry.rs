//! The backend's in-memory view of every device: the latest availability,
//! telemetry, acknowledgement and event of each, ordered by device
//! identifier.
//!
//! Payload types are parameters: the registry only stores and replaces them.
use vstd::prelude::*;

use crate::protocol::{str_equal, Availability, DeviceTopicKind};

verus! {

// ---------------------------------------------------------------------------
// Lexicographic order of identifiers.

/// `a` sorts strictly before `b`, comparing characters by code point.
pub open spec fn lex_less(a: Seq<char>, b: Seq<char>) -> bool
    decreases a.len(),
{
    if a.len() == 0 {
        b.len() > 0
    } else if b.len() == 0 {
        false
    } else if a[0] != b[0] {
        (a[0] as int) < (b[0] as int)
    } else {
        lex_less(a.drop_first(), b.drop_first())
    }
}

/// The order is strict and total on distinct identifiers.
pub proof fn lemma_lex_trichotomy(a: Seq<char>, b: Seq<char>)
    ensures
        !(lex_less(a, b) && lex_less(b, a)),
        a == b ==> !lex_less(a, b),
        a != b ==> lex_less(a, b) || lex_less(b, a),
    decreases a.len(),
{
    if a.len() > 0 && b.len() > 0 && a[0] == b[0] {
        lemma_lex_trichotomy(a.drop_first(), b.drop_first());
        if a.drop_first() == b.drop_first() {
            assert(a =~= seq![a[0]] + a.drop_first());
            assert(b =~= seq![b[0]] + b.drop_first());
        }
    } else if a.len() > 0 && b.len() > 0 {
        let x = a[0];
        let y = b[0];
        assert(x != y ==> (x as int) != (y as int));
    } else if a.len() == 0 && b.len() == 0 {
        assert(a =~= b);
    }
}

/// The order is transitive.
pub proof fn lemma_lex_transitive(a: Seq<char>, b: Seq<char>, c: Seq<char>)
    requires
        lex_less(a, b),
        lex_less(b, c),
    ensures
        lex_less(a, c),
    decreases a.len(),
{
    if a.len() > 0 && b.len() > 0 && c.len() > 0 && a[0] == b[0] && b[0] == c[0] {
        lemma_lex_transitive(a.drop_first(), b.drop_first(), c.drop_first());
    }
}

/// Identifiers strictly ascending (so no identifier appears twice).
pub open spec fn ids_ascending<R>(s: Seq<(Seq<char>, R)>) -> bool {
    forall|i: int, j: int| 0 <= i < j < s.len() ==> lex_less(#[trigger] s[i].0, #[trigger] s[j].0)
}

/// Decides [`lex_less`].
fn str_less(a: &str, b: &str) -> (less: bool)
    ensures
        less == lex_less(a@, b@),
{
    let n = a.unicode_len();
    let m = b.unicode_len();
    let mut i: usize = 0;
    proof {
        assert(a@.skip(0) =~= a@);
        assert(b@.skip(0) =~= b@);
    }
    while i < n && i < m
        invariant
            n == a@.len(),
            m == b@.len(),
            i <= n,
            i <= m,
            lex_less(a@, b@) == lex_less(a@.skip(i as int), b@.skip(i as int)),
        decreases n - i,
    {
        let x = a.get_char(i);
        let y = b.get_char(i);
        proof {
            assert(a@.skip(i as int)[0] == x);
            assert(b@.skip(i as int)[0] == y);
        }
        if x != y {
            proof {
                assert(x != y ==> (x as int) != (y as int));
            }
            return (x as u32) < (y as u32);
        }
        proof {
            assert(a@.skip(i as int).drop_first() =~= a@.skip(i + 1));
            assert(b@.skip(i as int).drop_first() =~= b@.skip(i + 1));
        }
        i += 1;
    }
    i < m
}

// ---------------------------------------------------------------------------
// Records.

/// What the backend knows of one device.
#[derive(Debug, Clone, PartialEq, Eq)]
pub struct DeviceRecord<T, A, E> {
    pub device_id: String,
    pub availability: Availability,
    pub telemetry: Option<T>,
    pub latest_acknowledgement: Option<A>,
    pub latest_event: Option<E>,
    pub last_seen_unix_ms: u64,
}

/// Mathematical model of a [`DeviceRecord`] without its identifier.
pub struct RecordModel<T, A, E> {
    pub availability: Availability,
    pub telemetry: Option<T>,
    pub latest_acknowledgement: Option<A>,
    pub latest_event: Option<E>,
    pub last_seen_unix_ms: u64,
}

impl<T, A, E> DeviceRecord<T, A, E> {
    /// The record without its identifier.
    pub open spec fn model(&self) -> RecordModel<T, A, E> {
        RecordModel {
            availability: self.availability,
            telemetry: self.telemetry,
            latest_acknowledgement: self.latest_acknowledgement,
            latest_event: self.latest_event,
            last_seen_unix_ms: self.last_seen_unix_ms,
        }
    }
}

/// A decoded message from a device.
#[derive(Debug, Clone, PartialEq, Eq)]
pub enum DeviceUpdate<T, A, E> {
    Availability(Availability),
    Telemetry(T),
    Acknowledgement(A),
    Event(E),
}

/// The record of a device seen for the first time: offline, nothing known.
pub open spec fn fresh_record<T, A, E>(now_unix_ms: u64) -> RecordModel<T, A, E> {
    RecordModel {
        availability: Availability::Offline,
        telemetry: None,
        latest_acknowledgement: None,
        latest_event: None,
        last_seen_unix_ms: now_unix_ms,
    }
}

/// The record after a message: availability replaces the availability;
/// telemetry replaces the telemetry and marks the device online; an
/// acknowledgement or an event replaces the latest one. Every message
/// refreshes the last-seen time.
pub open spec fn updated_record<T, A, E>(
    previous: Option<RecordModel<T, A, E>>,
    update: DeviceUpdate<T, A, E>,
    now_unix_ms: u64,
) -> RecordModel<T, A, E> {
    let base = match previous {
        Some(r) => r,
        None => fresh_record(now_unix_ms),
    };
    match update {
        DeviceUpdate::Availability(a) => RecordModel {
            availability: a,
            last_seen_unix_ms: now_unix_ms,
            ..base
        },
        DeviceUpdate::Telemetry(t) => RecordModel {
            availability: Availability::Online,
            telemetry: Some(t),
            last_seen_unix_ms: now_unix_ms,
            ..base
        },
        DeviceUpdate::Acknowledgement(a) => RecordModel {
            latest_acknowledgement: Some(a),
            last_seen_unix_ms: now_unix_ms,
            ..base
        },
        DeviceUpdate::Event(e) => RecordModel {
            latest_event: Some(e),
            last_seen_unix_ms: now_unix_ms,
            ..base
        },
    }
}

/// The record stored under `id`, if any.
pub open spec fn lookup<R>(s: Seq<(Seq<char>, R)>, id: Seq<char>) -> Option<R>
    decreases s.len(),
{
    if s.len() == 0 {
        None
    } else if s[0].0 == id {
        Some(s[0].1)
    } else {
        lookup(s.drop_first(), id)
    }
}

/// The ordered records after a message from `id`: its record is updated in
/// place, or created at its place in identifier order.
pub open spec fn upserted<T, A, E>(
    s: Seq<(Seq<char>, RecordModel<T, A, E>)>,
    id: Seq<char>,
    update: DeviceUpdate<T, A, E>,
    now_unix_ms: u64,
) -> Seq<(Seq<char>, RecordModel<T, A, E>)>
    decreases s.len(),
{
    if s.len() == 0 {
        seq![(id, updated_record(None, update, now_unix_ms))]
    } else if s[0].0 == id {
        seq![(id, updated_record(Some(s[0].1), update, now_unix_ms))] + s.drop_first()
    } else if lex_less(s[0].0, id) {
        seq![s[0]] + upserted(s.drop_first(), id, update, now_unix_ms)
    } else {
        seq![(id, updated_record(None, update, now_unix_ms))] + s
    }
}

/// Records in a sequence of records (identifier, model).
pub open spec fn records_model<T, A, E>(records: Seq<DeviceRecord<T, A, E>>) -> Seq<
    (Seq<char>, RecordModel<T, A, E>),
> {
    records.map_values(|r: DeviceRecord<T, A, E>| (r.device_id@, r.model()))
}

// ---------------------------------------------------------------------------
// Lemmas about the model.

proof fn lemma_ascending_tail<R>(s: Seq<(Seq<char>, R)>)
    requires
        ids_ascending(s),
        s.len() > 0,
    ensures
        ids_ascending(s.drop_first()),
{
    let t = s.drop_first();
    assert forall|i: int, j: int| 0 <= i < j < t.len() implies lex_less(
        #[trigger] t[i].0,
        #[trigger] t[j].0,
    ) by {
        assert(t[i] == s[i + 1] && t[j] == s[j + 1]);
    }
}

/// A record found at index `i` is the one `lookup` returns.
proof fn lemma_lookup_at<R>(s: Seq<(Seq<char>, R)>, id: Seq<char>, i: int)
    requires
        0 <= i < s.len(),
        s[i].0 == id,
        forall|j: int| 0 <= j < i ==> #[trigger] s[j].0 != id,
    ensures
        lookup(s, id) == Some(s[i].1),
    decreases s.len(),
{
    if i > 0 {
        let t = s.drop_first();
        assert forall|j: int| 0 <= j < i - 1 implies #[trigger] t[j].0 != id by {
            assert(t[j] == s[j + 1]);
        }
        lemma_lookup_at(t, id, i - 1);
    }
}

/// Nothing is found for an identifier no record holds.
proof fn lemma_lookup_absent<R>(s: Seq<(Seq<char>, R)>, id: Seq<char>)
    requires
        forall|j: int| 0 <= j < s.len() ==> #[trigger] s[j].0 != id,
    ensures
        lookup(s, id) is None,
    decreases s.len(),
{
    if s.len() > 0 {
        let t = s.drop_first();
        assert forall|j: int| 0 <= j < t.len() implies #[trigger] t[j].0 != id by {
            assert(t[j] == s[j + 1]);
        }
        lemma_lookup_absent(t, id);
    }
}

/// Upserting keeps the identifiers ascending, and a lookup after the
/// upsert sees the updated record for `id` and the unchanged record for
/// every other identifier.
pub proof fn lemma_upsert<T, A, E>(
    s: Seq<(Seq<char>, RecordModel<T, A, E>)>,
    id: Seq<char>,
    update: DeviceUpdate<T, A, E>,
    now_unix_ms: u64,
)
    requires
        ids_ascending(s),
    ensures
        ids_ascending(upserted(s, id, update, now_unix_ms)),
        upserted(s, id, update, now_unix_ms).len() >= 1,
        upserted(s, id, update, now_unix_ms)[0].0 == id || (s.len() > 0
            && upserted(s, id, update, now_unix_ms)[0] == s[0]),
        lookup(upserted(s, id, update, now_unix_ms), id) == Some(
            updated_record(lookup(s, id), update, now_unix_ms),
        ),
        forall|other: Seq<char>|
            other != id ==> #[trigger] lookup(upserted(s, id, update, now_unix_ms), other) == lookup(
                s,
                other,
            ),
    decreases s.len(),
{
    let r = upserted(s, id, update, now_unix_ms);
    if s.len() == 0 {
        assert forall|other: Seq<char>| other != id implies #[trigger] lookup(r, other) == lookup(
            s,
            other,
        ) by {
            let rest = r.drop_first();
            assert(rest.len() == 0);
            assert(lookup(rest, other) is None);
            assert(r[0].0 == id);
        }
    } else if s[0].0 == id {
        let t = s.drop_first();
        assert(r.drop_first() =~= t);
        assert forall|i: int, j: int| 0 <= i < j < r.len() implies lex_less(
            #[trigger] r[i].0,
            #[trigger] r[j].0,
        ) by {
            assert(r[j] == s[j]);
            if i > 0 {
                assert(r[i] == s[i]);
            }
        }
        assert forall|other: Seq<char>| other != id implies #[trigger] lookup(r, other) == lookup(
            s,
            other,
        ) by {}
    } else if lex_less(s[0].0, id) {
        let t = s.drop_first();
        lemma_ascending_tail(s);
        lemma_upsert(t, id, update, now_unix_ms);
        let rt = upserted(t, id, update, now_unix_ms);
        assert(r.drop_first() =~= rt);
        assert(r[0] == s[0]);
        assert forall|i: int, j: int| 0 <= i < j < r.len() implies lex_less(
            #[trigger] r[i].0,
            #[trigger] r[j].0,
        ) by {
            if i == 0 {
                // rt holds the tail of s and id, all after s[0].
                if rt[j - 1].0 == id {
                    assert(lex_less(s[0].0, id));
                } else {
                    lemma_lookup_member(rt, t, id, update, now_unix_ms, j - 1);
                    let k = choose|k: int| 0 <= k < t.len() && t[k].0 == rt[j - 1].0;
                    assert(s[k + 1] == t[k]);
                }
            } else {
                assert(r[i] == rt[i - 1] && r[j] == rt[j - 1]);
            }
        }
        lemma_lex_trichotomy(s[0].0, id);
        assert(lookup(r, id) == lookup(rt, id));
        assert(lookup(s, id) == lookup(t, id));
        assert forall|other: Seq<char>| other != id implies #[trigger] lookup(r, other) == lookup(
            s,
            other,
        ) by {
            if other != s[0].0 {
                assert(lookup(r, other) == lookup(rt, other));
            }
        }
    } else {
        lemma_lex_trichotomy(s[0].0, id);
        assert(r.drop_first() =~= s);
        assert forall|i: int, j: int| 0 <= i < j < r.len() implies lex_less(
            #[trigger] r[i].0,
            #[trigger] r[j].0,
        ) by {
            if i == 0 {
                if j > 1 {
                    lemma_lex_transitive(id, s[0].0, s[j - 1].0);
                }
            } else {
                assert(r[i] == s[i - 1] && r[j] == s[j - 1]);
            }
        }
        lemma_lookup_absent_sorted(s, id);
        assert forall|other: Seq<char>| other != id implies #[trigger] lookup(r, other) == lookup(
            s,
            other,
        ) by {}
    }
}

/// In ascending records, an identifier that sorts before the first one is
/// absent.
proof fn lemma_lookup_absent_sorted<R>(s: Seq<(Seq<char>, R)>, id: Seq<char>)
    requires
        ids_ascending(s),
        s.len() > 0,
        lex_less(id, s[0].0),
    ensures
        lookup(s, id) is None,
{
    assert forall|j: int| 0 <= j < s.len() implies #[trigger] s[j].0 != id by {
        if j > 0 {
            lemma_lex_transitive(id, s[0].0, s[j].0);
        }
        lemma_lex_trichotomy(id, s[j].0);
    }
    lemma_lookup_absent(s, id);
}

/// Every identifier in the upserted records other than `id` was already
/// present.
proof fn lemma_lookup_member<T, A, E>(
    rt: Seq<(Seq<char>, RecordModel<T, A, E>)>,
    t: Seq<(Seq<char>, RecordModel<T, A, E>)>,
    id: Seq<char>,
    update: DeviceUpdate<T, A, E>,
    now_unix_ms: u64,
    j: int,
)
    requires
        rt == upserted(t, id, update, now_unix_ms),
        0 <= j < rt.len(),
        rt[j].0 != id,
    ensures
        exists|k: int| 0 <= k < t.len() && t[k].0 == rt[j].0,
    decreases t.len(),
{
    if t.len() == 0 {
    } else if t[0].0 == id {
        assert(rt[j] == t[j]);
    } else if lex_less(t[0].0, id) {
        if j == 0 {
            assert(t[0].0 == rt[j].0);
        } else {
            let tt = t.drop_first();
            let rr = upserted(tt, id, update, now_unix_ms);
            assert(rt[j] == rr[j - 1]);
            lemma_lookup_member(rr, tt, id, update, now_unix_ms, j - 1);
            let k = choose|k: int| 0 <= k < tt.len() && tt[k].0 == rr[j - 1].0;
            assert(t[k + 1] == tt[k]);
        }
    } else {
        assert(rt[j] == t[j - 1]);
    }
}

/// Upserting at a known position: the scan stopped at `p`, every earlier
/// identifier sorts before `id`, and `p` holds `id` or one sorting after.
proof fn lemma_upsert_at<T, A, E>(
    s: Seq<(Seq<char>, RecordModel<T, A, E>)>,
    id: Seq<char>,
    update: DeviceUpdate<T, A, E>,
    now_unix_ms: u64,
    p: int,
)
    requires
        0 <= p <= s.len(),
        forall|i: int| 0 <= i < p ==> lex_less(#[trigger] s[i].0, id),
        p < s.len() ==> !lex_less(s[p].0, id),
    ensures
        p < s.len() && s[p].0 == id ==> upserted(s, id, update, now_unix_ms) == s.update(
            p,
            (id, updated_record(Some(s[p].1), update, now_unix_ms)),
        ),
        !(p < s.len() && s[p].0 == id) ==> upserted(s, id, update, now_unix_ms) == s.insert(
            p,
            (id, updated_record(None, update, now_unix_ms)),
        ),
    decreases s.len(),
{
    if s.len() == 0 {
        assert(s.insert(p, (id, updated_record(None, update, now_unix_ms))) =~= seq![
            (id, updated_record(None, update, now_unix_ms)),
        ]);
    } else if p == 0 {
        if s[0].0 == id {
            assert(s.update(0, (id, updated_record(Some(s[0].1), update, now_unix_ms))) =~= seq![
                (id, updated_record(Some(s[0].1), update, now_unix_ms)),
            ] + s.drop_first());
        } else {
            assert(s.insert(0, (id, updated_record(None, update, now_unix_ms))) =~= seq![
                (id, updated_record(None, update, now_unix_ms)),
            ] + s);
        }
    } else {
        let t = s.drop_first();
        assert(lex_less(s[0].0, id));
        lemma_lex_trichotomy(s[0].0, id);
        assert forall|i: int| 0 <= i < p - 1 implies lex_less(#[trigger] t[i].0, id) by {
            assert(t[i] == s[i + 1]);
        }
        lemma_upsert_at(t, id, update, now_unix_ms, p - 1);
        if p < s.len() && s[p].0 == id {
            assert(s.update(p, (id, updated_record(Some(s[p].1), update, now_unix_ms))) =~= seq![
                s[0],
            ] + t.update(p - 1, (id, updated_record(Some(t[p - 1].1), update, now_unix_ms))));
        } else {
            assert(s.insert(p, (id, updated_record(None, update, now_unix_ms))) =~= seq![s[0]]
                + t.insert(p - 1, (id, updated_record(None, update, now_unix_ms))));
        }
    }
}

// ---------------------------------------------------------------------------
// The registry.

/// Every device heard of, ordered by identifier.
#[derive(Debug)]
pub struct DeviceRegistry<T, A, E> {
    records: Vec<DeviceRecord<T, A, E>>,
}

impl<T, A, E> View for DeviceRegistry<T, A, E> {
    type V = Seq<(Seq<char>, RecordModel<T, A, E>)>;

    closed spec fn view(&self) -> Seq<(Seq<char>, RecordModel<T, A, E>)> {
        records_model(self.records@)
    }
}

impl<T, A, E> DeviceRegistry<T, A, E> {
    #[verifier::type_invariant]
    spec fn well_formed(self) -> bool {
        ids_ascending(records_model(self.records@))
    }

    /// A registry that knows no device.
    pub fn new() -> (registry: Self)
        ensures
            registry@ == Seq::<(Seq<char>, RecordModel<T, A, E>)>::empty(),
    {
        let registry = DeviceRegistry { records: Vec::new() };
        proof {
            assert(records_model(registry.records@) =~= Seq::<
                (Seq<char>, RecordModel<T, A, E>),
            >::empty());
        }
        registry
    }

    /// Records a message from `device_id` received at `now_unix_ms`
    /// (see [`upserted`]).
    pub fn apply(&mut self, device_id: &str, update: DeviceUpdate<T, A, E>, now_unix_ms: u64)
        ensures
            final(self)@ == upserted(old(self)@, device_id@, update, now_unix_ms),
            ids_ascending(final(self)@),
    {
        proof {
            use_type_invariant(&*self);
        }
        let ghost s = self@;
        let mut position: usize = 0;
        while position < self.records.len() && str_less(
            self.records[position].device_id.as_str(),
            device_id,
        )
            invariant
                position <= self.records@.len(),
                s == records_model(self.records@),
                forall|i: int| 0 <= i < position ==> lex_less(#[trigger] s[i].0, device_id@),
            decreases self.records@.len() - position,
        {
            position += 1;
        }
        let found = position < self.records.len() && str_equal(
            self.records[position].device_id.as_str(),
            device_id,
        );
        proof {
            lemma_upsert_at(s, device_id@, update, now_unix_ms, position as int);
            lemma_upsert(s, device_id@, update, now_unix_ms);
        }
        let mut records = Vec::new();
        std::mem::swap(&mut records, &mut self.records);
        let ghost before = records@;
        let record = if found {
            records.remove(position)
        } else {
            DeviceRecord {
                device_id: device_id.to_owned(),
                availability: Availability::Offline,
                telemetry: None,
                latest_acknowledgement: None,
                latest_event: None,
                last_seen_unix_ms: now_unix_ms,
            }
        };
        let ghost previous = record.model();
        let DeviceRecord {
            device_id: stored_id,
            availability,
            telemetry,
            latest_acknowledgement,
            latest_event,
            last_seen_unix_ms: _,
        } = record;
        let updated = match update {
            DeviceUpdate::Availability(a) => DeviceRecord {
                device_id: stored_id,
                availability: a,
                telemetry,
                latest_acknowledgement,
                latest_event,
                last_seen_unix_ms: now_unix_ms,
            },
            DeviceUpdate::Telemetry(t) => DeviceRecord {
                device_id: stored_id,
                availability: Availability::Online,
                telemetry: Some(t),
                latest_acknowledgement,
                latest_event,
                last_seen_unix_ms: now_unix_ms,
            },
            DeviceUpdate::Acknowledgement(a) => DeviceRecord {
                device_id: stored_id,
                availability,
                telemetry,
                latest_acknowledgement: Some(a),
                latest_event,
                last_seen_unix_ms: now_unix_ms,
            },
            DeviceUpdate::Event(e) => DeviceRecord {
                device_id: stored_id,
                availability,
                telemetry,
                latest_acknowledgement,
                latest_event: Some(e),
                last_seen_unix_ms: now_unix_ms,
            },
        };
        proof {
            assert(updated.device_id@ == device_id@);
            if found {
                assert(previous == s[position as int].1);
                assert(updated.model() == updated_record(Some(previous), update, now_unix_ms));
            } else {
                assert(previous == fresh_record::<T, A, E>(now_unix_ms));
                assert(updated.model() == updated_record(None, update, now_unix_ms));
            }
        }
        records.insert(position, updated);
        proof {
            if found {
                assert(records_model(records@) =~= s.update(
                    position as int,
                    (device_id@, updated_record(Some(previous), update, now_unix_ms)),
                )) by {
                    assert(records@ =~= before.update(position as int, updated));
                }
            } else {
                assert(records_model(records@) =~= s.insert(
                    position as int,
                    (device_id@, updated_record(None, update, now_unix_ms)),
                ));
            }
        }
        self.records = records;
    }

    /// The record of `device_id`, if the device has been heard of.
    pub fn get(&self, device_id: &str) -> (record: Option<&DeviceRecord<T, A, E>>)
        ensures
            match record {
                Some(r) => r.device_id@ == device_id@ && lookup(self@, device_id@) == Some(r.model()),
                None => lookup(self@, device_id@) is None,
            },
    {
        let ghost s = self@;
        let mut index: usize = 0;
        while index < self.records.len()
            invariant
                index <= self.records@.len(),
                s == records_model(self.records@),
                forall|j: int| 0 <= j < index ==> #[trigger] s[j].0 != device_id@,
            decreases self.records@.len() - index,
        {
            if str_equal(self.records[index].device_id.as_str(), device_id) {
                proof {
                    lemma_lookup_at(s, device_id@, index as int);
                }
                return Some(&self.records[index]);
            }
            index += 1;
        }
        proof {
            lemma_lookup_absent(s, device_id@);
        }
        None
    }

    /// Every record, ordered by device identifier.
    pub fn records(&self) -> (records: &Vec<DeviceRecord<T, A, E>>)
        ensures
            records_model(records@) == self@,
            ids_ascending(self@),
    {
        proof {
            use_type_invariant(self);
        }
        &self.records
    }
}

/// What a read gives back of a write: after a message from `device_id`,
/// its record is the previous one (or a fresh one) updated by the message,
/// a telemetry message makes the device appear online with that telemetry,
/// and no other device's record changes.
pub proof fn lemma_read_after_update<T, A, E>(
    s: Seq<(Seq<char>, RecordModel<T, A, E>)>,
    device_id: Seq<char>,
    update: DeviceUpdate<T, A, E>,
    now_unix_ms: u64,
    other: Seq<char>,
)
    requires
        ids_ascending(s),
    ensures
        lookup(upserted(s, device_id, update, now_unix_ms), device_id) == Some(
            updated_record(lookup(s, device_id), update, now_unix_ms),
        ),
        update matches DeviceUpdate::Telemetry(t) ==> lookup(
            upserted(s, device_id, update, now_unix_ms),
            device_id,
        ) matches Some(r) && r.telemetry == Some(t) && r.availability == Availability::Online,
        other != device_id ==> lookup(upserted(s, device_id, update, now_unix_ms), other)
            == lookup(s, other),
{
    lemma_upsert(s, device_id, update, now_unix_ms);
}

/// What each message does to the record of its device, field by field: an
/// availability message sets exactly that availability, telemetry sets the
/// telemetry and marks the device online, an acknowledgement or an event
/// becomes the latest one; every message sets the last-seen time, and the
/// fields a message does not carry keep their previous values (those of a
/// fresh, offline record for a device not heard of before).
pub proof fn lemma_message_effects<T, A, E>(
    s: Seq<(Seq<char>, RecordModel<T, A, E>)>,
    device_id: Seq<char>,
    update: DeviceUpdate<T, A, E>,
    now_unix_ms: u64,
)
    requires
        ids_ascending(s),
    ensures
        lookup(upserted(s, device_id, update, now_unix_ms), device_id) is Some,
        ({
            let after = lookup(upserted(s, device_id, update, now_unix_ms), device_id)->Some_0;
            let (availability, telemetry, ack, event) = match lookup(s, device_id) {
                Some(r) => (r.availability, r.telemetry, r.latest_acknowledgement, r.latest_event),
                None => (Availability::Offline, None, None, None),
            };
            &&& after.last_seen_unix_ms == now_unix_ms
            &&& after.availability == (match update {
                DeviceUpdate::Availability(a) => a,
                DeviceUpdate::Telemetry(_) => Availability::Online,
                _ => availability,
            })
            &&& after.telemetry == (match update {
                DeviceUpdate::Telemetry(t) => Some(t),
                _ => telemetry,
            })
            &&& after.latest_acknowledgement == (match update {
                DeviceUpdate::Acknowledgement(a) => Some(a),
                _ => ack,
            })
            &&& after.latest_event == (match update {
                DeviceUpdate::Event(e) => Some(e),
                _ => event,
            })
        }),
{
    lemma_upsert(s, device_id, update, now_unix_ms);
}

/// The device messages the backend ingests.
#[derive(Debug, Clone, Copy, PartialEq, Eq, Structural)]
pub enum IngestKind {
    Availability,
    Telemetry,
    Acknowledgement,
    Event,
}

/// How the backend treats a message on a topic of `kind`: availability,
/// telemetry, acknowledgements and events update the registry; commands
/// and configuration topics are not the backend's to ingest.
pub fn ingest_kind(kind: DeviceTopicKind) -> (ingest: Option<IngestKind>)
    ensures
        ingest == (match kind {
            DeviceTopicKind::Availability => Some(IngestKind::Availability),
            DeviceTopicKind::Telemetry => Some(IngestKind::Telemetry),
            DeviceTopicKind::Acknowledgement => Some(IngestKind::Acknowledgement),
            DeviceTopicKind::Event => Some(IngestKind::Event),
            _ => None,
        }),
{
    match kind {
        DeviceTopicKind::Availability => Some(IngestKind::Availability),
        DeviceTopicKind::Telemetry => Some(IngestKind::Telemetry),
        DeviceTopicKind::Acknowledgement => Some(IngestKind::Acknowledgement),
        DeviceTopicKind::Event => Some(IngestKind::Event),
        DeviceTopicKind::Command | DeviceTopicKind::DesiredConfig | DeviceTopicKind::ReportedConfig => None,
    }
}

} // verus!
