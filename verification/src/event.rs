//! Event dispatch and the per-device state it drives.
//!
//! One logical worker processes events in arrival order. A frame-bearing
//! event carries one device and one or more vendor-key/payload pairs; each
//! pair is dispatched independently and to completion, in the order
//! supplied. A pair whose key is unknown, or whose payload fails to decode,
//! leaves the state exactly as it was and never stops the pairs after it.
//! Non-frame events are observed for diagnostics only. The caller runs the
//! loop: it performs the returned name-lookup action, if any, and hands the
//! outcome back through [`State::record_name`].

use vstd::prelude::*;

use crate::reading::Framing;
use crate::reading::Reading;
use crate::reading::TimedReading;
use crate::reading::kind_for;
use crate::reading::spec_decode_kind;
use crate::reading::spec_kind_for;
use crate::reading::decode_kind;
use crate::store::DeviceId;
use crate::store::DeviceTable;

verus! {

/// One event as the transport adapter hands it to the worker.
pub enum Event {
    /// The adapter was powered on or off.
    AdapterPowered { powered: bool },
    /// The adapter started or stopped discovering.
    AdapterDiscovering { discovering: bool },
    /// A broadcast with manufacturer-keyed payloads.
    ManufacturerFrames { device: DeviceId, pairs: Vec<(u16, Vec<u8>)> },
    /// A broadcast with service-keyed payloads.
    ServiceFrames { device: DeviceId, pairs: Vec<(u16, Vec<u8>)> },
}

/// The per-process state: the latest reading per device, and the friendly
/// names resolved so far.
pub struct State {
    pub store: DeviceTable<TimedReading>,
    pub names: DeviceTable<String>,
}

/// What a successful pair decodes to, if its key is recognized and its
/// payload decodes.
pub open spec fn spec_pair_decode(framing: Framing, key: u16, payload: Seq<u8>) -> Option<
    Reading,
> {
    match spec_kind_for(framing, key) {
        Some(k) => match spec_decode_kind(k, payload) {
            Ok(r) => Some(r),
            Err(_) => None,
        },
        None => None,
    }
}

/// The store mapping after one key/payload pair: a successful decode
/// overwrites the device's entry, anything else leaves the mapping as it
/// was.
pub open spec fn spec_apply_pair(
    m: Map<DeviceId, TimedReading>,
    device: DeviceId,
    now: u64,
    framing: Framing,
    key: u16,
    payload: Seq<u8>,
) -> Map<DeviceId, TimedReading> {
    match spec_pair_decode(framing, key, payload) {
        Some(r) => m.insert(device, TimedReading { captured_at: now, reading: r }),
        None => m,
    }
}

/// The store mapping after the pairs of one event, applied in order.
pub open spec fn spec_apply_pairs(
    m: Map<DeviceId, TimedReading>,
    device: DeviceId,
    now: u64,
    framing: Framing,
    pairs: Seq<(u16, Vec<u8>)>,
) -> Map<DeviceId, TimedReading>
    decreases pairs.len(),
{
    if pairs.len() == 0 {
        m
    } else {
        spec_apply_pair(
            spec_apply_pairs(m, device, now, framing, pairs.drop_last()),
            device,
            now,
            framing,
            pairs.last().0,
            pairs.last().1@,
        )
    }
}

/// The store mapping after one event: only frame-bearing events touch it.
pub open spec fn spec_apply_event(
    m: Map<DeviceId, TimedReading>,
    now: u64,
    event: Event,
) -> Map<DeviceId, TimedReading> {
    match event {
        Event::ManufacturerFrames { device, pairs } => spec_apply_pairs(
            m,
            device,
            now,
            Framing::Manufacturer,
            pairs@,
        ),
        Event::ServiceFrames { device, pairs } => spec_apply_pairs(
            m,
            device,
            now,
            Framing::Service,
            pairs@,
        ),
        _ => m,
    }
}

/// Whether at least one pair decodes successfully.
pub open spec fn spec_any_decoded(framing: Framing, pairs: Seq<(u16, Vec<u8>)>) -> bool
    decreases pairs.len(),
{
    if pairs.len() == 0 {
        false
    } else {
        spec_any_decoded(framing, pairs.drop_last()) || spec_pair_decode(
            framing,
            pairs.last().0,
            pairs.last().1@,
        ) is Some
    }
}

/// The device a frame-bearing event is about.
pub open spec fn spec_event_device(event: Event) -> Option<DeviceId> {
    match event {
        Event::ManufacturerFrames { device, pairs } => Some(device),
        Event::ServiceFrames { device, pairs } => Some(device),
        _ => None,
    }
}

/// The name lookup an event calls for: the event's device, when some pair
/// decoded successfully and no name is known for it yet.
pub open spec fn spec_lookup_action(
    names: Seq<(DeviceId, String)>,
    event: Event,
) -> Option<DeviceId> {
    match event {
        Event::ManufacturerFrames { device, pairs } => if spec_any_decoded(
            Framing::Manufacturer,
            pairs@,
        ) && crate::store::spec_get(names, device) is None {
            Some(device)
        } else {
            None
        },
        Event::ServiceFrames { device, pairs } => if spec_any_decoded(Framing::Service, pairs@)
            && crate::store::spec_get(names, device) is None {
            Some(device)
        } else {
            None
        },
        _ => None,
    }
}

impl State {
    /// Both tables hold at most one entry per device.
    pub open spec fn wf(&self) -> bool {
        self.store.wf() && self.names.wf()
    }

    /// A fresh state: nothing seen, nothing named.
    pub fn new() -> (s: State)
        ensures
            s.wf(),
            s.store@ == Map::<DeviceId, TimedReading>::empty(),
            s.store.entries() == Seq::<(DeviceId, TimedReading)>::empty(),
            s.names@ == Map::<DeviceId, String>::empty(),
            s.names.entries() == Seq::<(DeviceId, String)>::empty(),
    {
        State { store: DeviceTable::new(), names: DeviceTable::new() }
    }

    /// Records a resolved friendly name. A failed lookup is simply not
    /// recorded: output falls back to the raw device identifier.
    pub fn record_name(&mut self, device: DeviceId, name: String)
        requires
            old(self).wf(),
        ensures
            final(self).wf(),
            final(self).names@ == old(self).names@.insert(device, name),
            final(self).store == old(self).store,
    {
        self.names.upsert(device, name);
    }
}

/// The keys whose payload was dispatched to a decoder and rejected, in the
/// order they came. Unknown keys are not failures.
pub open spec fn spec_failed_keys(framing: Framing, pairs: Seq<(u16, Vec<u8>)>) -> Seq<u16>
    decreases pairs.len(),
{
    if pairs.len() == 0 {
        Seq::empty()
    } else {
        let rest = spec_failed_keys(framing, pairs.drop_last());
        if spec_kind_for(framing, pairs.last().0) is Some && spec_pair_decode(
            framing,
            pairs.last().0,
            pairs.last().1@,
        ) is None {
            rest.push(pairs.last().0)
        } else {
            rest
        }
    }
}

/// Processes the pairs of one frame-bearing event, in the order supplied.
fn process_pairs(
    store: &mut DeviceTable<TimedReading>,
    device: DeviceId,
    now: u64,
    framing: Framing,
    pairs: &Vec<(u16, Vec<u8>)>,
) -> (r: (bool, Vec<u16>))
    requires
        old(store).wf(),
    ensures
        final(store).wf(),
        final(store)@ == spec_apply_pairs(old(store)@, device, now, framing, pairs@),
        r.0 == spec_any_decoded(framing, pairs@),
        r.1@ == spec_failed_keys(framing, pairs@),
{
    let ghost m0 = store@;
    let n = pairs.len();
    let mut any = false;
    let mut failed: Vec<u16> = Vec::new();
    proof {
        assert(pairs@.subrange(0, 0) =~= Seq::<(u16, Vec<u8>)>::empty());
    }
    let mut i: usize = 0;
    while i < n
        invariant
            old(store).wf(),
            store.wf(),
            m0 == old(store)@,
            n == pairs@.len(),
            i <= n,
            store@ == spec_apply_pairs(m0, device, now, framing, pairs@.subrange(0, i as int)),
            any == spec_any_decoded(framing, pairs@.subrange(0, i as int)),
            failed@ == spec_failed_keys(framing, pairs@.subrange(0, i as int)),
        decreases n - i,
    {
        proof {
            assert(pairs@.subrange(0, i as int + 1).drop_last() =~= pairs@.subrange(0, i as int));
            assert(pairs@.subrange(0, i as int + 1).last() == pairs@[i as int]);
        }
        let key = pairs[i].0;
        match kind_for(framing, key) {
            Some(kind) => {
                match decode_kind(kind, pairs[i].1.as_slice()) {
                    Ok(r) => {
                        store.upsert(device, TimedReading { captured_at: now, reading: r });
                        any = true;
                    },
                    Err(_) => {
                        failed.push(key);
                    },
                }
            },
            None => {},
        }
        i = i + 1;
    }
    proof {
        assert(pairs@.subrange(0, n as int) =~= pairs@);
    }
    (any, failed)
}

/// What processing one event asks of the caller.
pub struct Processed {
    /// The device whose friendly name should be looked up: its first
    /// reading arrived and no name is known yet. The lookup is
    /// fire-and-forget; its outcome only affects display resolution.
    pub lookup: Option<DeviceId>,
    /// The keys whose payload a decoder rejected, for diagnostics. The
    /// failures are local: they changed nothing and stopped nothing.
    pub failed_keys: Vec<u16>,
}

/// The failed keys an event surfaces for logging.
pub open spec fn spec_event_failed_keys(event: Event) -> Seq<u16> {
    match event {
        Event::ManufacturerFrames { device, pairs } => spec_failed_keys(
            Framing::Manufacturer,
            pairs@,
        ),
        Event::ServiceFrames { device, pairs } => spec_failed_keys(Framing::Service, pairs@),
        _ => Seq::empty(),
    }
}

/// Processes one event, as the single worker does for each item the
/// transport hands it.
///
/// A frame-bearing event updates the store through dispatch, pair by pair;
/// a failure on one pair never prevents the pairs after it, and no error
/// surfaces to the loop — failed keys are only reported back for logging.
/// Non-frame events change nothing.
pub fn process_event(state: &mut State, now: u64, event: &Event) -> (r: Processed)
    requires
        old(state).wf(),
    ensures
        final(state).wf(),
        final(state).store@ == spec_apply_event(old(state).store@, now, *event),
        final(state).names == old(state).names,
        r.lookup == spec_lookup_action(old(state).names.entries(), *event),
        r.failed_keys@ == spec_event_failed_keys(*event),
{
    match event {
        Event::ManufacturerFrames { device, pairs } => {
            let (any, failed_keys) = process_pairs(
                &mut state.store,
                *device,
                now,
                Framing::Manufacturer,
                pairs,
            );
            let lookup = if any && !state.names.contains(*device) {
                Some(*device)
            } else {
                None
            };
            Processed { lookup, failed_keys }
        },
        Event::ServiceFrames { device, pairs } => {
            let (any, failed_keys) = process_pairs(
                &mut state.store,
                *device,
                now,
                Framing::Service,
                pairs,
            );
            let lookup = if any && !state.names.contains(*device) {
                Some(*device)
            } else {
                None
            };
            Processed { lookup, failed_keys }
        },
        Event::AdapterPowered { powered: _ } => Processed {
            lookup: None,
            failed_keys: Vec::new(),
        },
        Event::AdapterDiscovering { discovering: _ } => Processed {
            lookup: None,
            failed_keys: Vec::new(),
        },
    }
}

/// The last successful decode among the pairs, if any.
pub open spec fn spec_last_decode(framing: Framing, pairs: Seq<(u16, Vec<u8>)>) -> Option<Reading>
    decreases pairs.len(),
{
    if pairs.len() == 0 {
        None
    } else {
        match spec_pair_decode(framing, pairs.last().0, pairs.last().1@) {
            Some(r) => Some(r),
            None => spec_last_decode(framing, pairs.drop_last()),
        }
    }
}

/// Applying an event's pairs in order comes down to one thing: the last
/// successful decode overwrites the device's entry, and if no pair decodes
/// the mapping is untouched.
pub proof fn lemma_apply_pairs_characterization(
    m: Map<DeviceId, TimedReading>,
    device: DeviceId,
    now: u64,
    framing: Framing,
    pairs: Seq<(u16, Vec<u8>)>,
)
    ensures
        spec_apply_pairs(m, device, now, framing, pairs) == (match spec_last_decode(
            framing,
            pairs,
        ) {
            Some(r) => m.insert(device, TimedReading { captured_at: now, reading: r }),
            None => m,
        }),
    decreases pairs.len(),
{
    if pairs.len() == 0 {
    } else {
        lemma_apply_pairs_characterization(m, device, now, framing, pairs.drop_last());
        match spec_pair_decode(framing, pairs.last().0, pairs.last().1@) {
            Some(r) => {
                match spec_last_decode(framing, pairs.drop_last()) {
                    Some(r0) => {
                        assert(m.insert(
                            device,
                            TimedReading { captured_at: now, reading: r0 },
                        ).insert(device, TimedReading { captured_at: now, reading: r }) =~= m.insert(
                            device,
                            TimedReading { captured_at: now, reading: r },
                        ));
                    },
                    None => {},
                }
            },
            None => {},
        }
    }
}

/// The overwrite one event performs, if any: the last successful decode of
/// its pairs, stamped with the event's arrival time.
pub open spec fn spec_event_update(now: u64, event: Event) -> Option<TimedReading> {
    match event {
        Event::ManufacturerFrames { device, pairs } => match spec_last_decode(
            Framing::Manufacturer,
            pairs@,
        ) {
            Some(r) => Some(TimedReading { captured_at: now, reading: r }),
            None => None,
        },
        Event::ServiceFrames { device, pairs } => match spec_last_decode(
            Framing::Service,
            pairs@,
        ) {
            Some(r) => Some(TimedReading { captured_at: now, reading: r }),
            None => None,
        },
        _ => None,
    }
}

/// One event either overwrites its device's entry with its update, or
/// leaves the mapping untouched.
pub proof fn lemma_apply_event_characterization(
    m: Map<DeviceId, TimedReading>,
    now: u64,
    event: Event,
)
    ensures
        spec_apply_event(m, now, event) == (match (
            spec_event_device(event),
            spec_event_update(now, event),
        ) {
            (Some(d), Some(tr)) => m.insert(d, tr),
            _ => m,
        }),
{
    match event {
        Event::ManufacturerFrames { device, pairs } => {
            lemma_apply_pairs_characterization(m, device, now, Framing::Manufacturer, pairs@);
        },
        Event::ServiceFrames { device, pairs } => {
            lemma_apply_pairs_characterization(m, device, now, Framing::Service, pairs@);
        },
        _ => {},
    }
}

/// The store mapping after a whole burst of events, applied in arrival
/// order, each with its arrival time.
pub open spec fn spec_apply_events(
    m: Map<DeviceId, TimedReading>,
    events: Seq<(u64, Event)>,
) -> Map<DeviceId, TimedReading>
    decreases events.len(),
{
    if events.len() == 0 {
        m
    } else {
        spec_apply_event(
            spec_apply_events(m, events.drop_last()),
            events.last().0,
            events.last().1,
        )
    }
}

/// No lost update: after a burst of events is processed by the single
/// worker in arrival order, every device keeps the update of the last event
/// that successfully decoded for it — later events for other devices, and
/// events that decode nothing, cannot erase it. A timer tick only reads the
/// store, so the projection that follows the burst reflects all of these
/// updates.
pub proof fn lemma_burst_no_lost_update(
    m: Map<DeviceId, TimedReading>,
    events: Seq<(u64, Event)>,
    k: int,
)
    requires
        0 <= k < events.len(),
        spec_event_device(events[k].1) is Some,
        spec_event_update(events[k].0, events[k].1) is Some,
        forall|j: int|
            k < j < events.len() ==> !(spec_event_device((#[trigger] events[j]).1)
                == spec_event_device(events[k].1) && spec_event_update(events[j].0, events[j].1)
                is Some),
    ensures
        spec_apply_events(m, events).contains_key(spec_event_device(events[k].1)->Some_0),
        spec_apply_events(m, events)[spec_event_device(events[k].1)->Some_0]
            == spec_event_update(events[k].0, events[k].1)->Some_0,
    decreases events.len(),
{
    let d = spec_event_device(events[k].1)->Some_0;
    let prev = spec_apply_events(m, events.drop_last());
    lemma_apply_event_characterization(prev, events.last().0, events.last().1);
    if k == events.len() - 1 {
    } else {
        assert(events.drop_last()[k] == events[k]);
        assert(forall|j: int|
            k < j < events.drop_last().len() ==> (#[trigger] events.drop_last()[j]) == events[j]);
        lemma_burst_no_lost_update(m, events.drop_last(), k);
        match (
            spec_event_device(events.last().1),
            spec_event_update(events.last().0, events.last().1),
        ) {
            (Some(d2), Some(tr)) => {
                assert(events[events.len() - 1] == events.last());
                assert(d2 != d);
            },
            _ => {},
        }
    }
}

/// An unrecognized vendor key, or a payload its decoder rejects, produces
/// no store mutation; it is observed and ignored, not an error.
pub proof fn lemma_unrecognized_pair_no_mutation(
    m: Map<DeviceId, TimedReading>,
    device: DeviceId,
    now: u64,
    framing: Framing,
    key: u16,
    payload: Seq<u8>,
)
    requires
        spec_pair_decode(framing, key, payload) is None,
    ensures
        spec_apply_pair(m, device, now, framing, key, payload) == m,
{
}

} // verus!
