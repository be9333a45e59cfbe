use airmon::aranet4;
use airmon::event::{process_event, Event, State};
use airmon::mitherm;
use airmon::output::{render, DisplayId, Document, OutputMode};
use airmon::reading::Reading;

const ARANET4_PAYLOAD: [u8; 22] = [
    0x21, 0x13, 0x04, 0x01, 0x00, 0x0c, 0x0f, 0x01, 0xb9, 0x02, 0xd9, 0x01, 0x4b, 0x27, 0x33,
    0x14, 0x01, 0x3c, 0x00, 0x3c, 0x00, 0xc6,
];

const MITHERM_PAYLOAD: [u8; 15] = [
    0x80, 0x49, 0xd8, 0x38, 0xc1, 0xa4, 0xbe, 0x08, 0x44, 0x15, 0xbc, 0x0b, 0x64, 0xef, 0x04,
];

/// An aranet4 payload whose co2 word is `co2` with all sentinel bits clear.
fn payload_with_co2(co2: u16) -> Vec<u8> {
    let mut p = ARANET4_PAYLOAD.to_vec();
    p[8] = (co2 & 0xff) as u8;
    p[9] = (co2 >> 8) as u8;
    p
}

#[test]
fn manufacturer_frame_updates_store() {
    let mut state = State::new();
    let event = Event::ManufacturerFrames {
        device: 7,
        pairs: vec![(aranet4::MANUFACTURER_ID, ARANET4_PAYLOAD.to_vec())],
    };
    let outcome = process_event(&mut state, 100, &event);
    // First reading for an unnamed device: a name lookup is requested.
    assert_eq!(outcome.lookup, Some(7));
    assert!(outcome.failed_keys.is_empty());
    let entry = state.store.get(7).unwrap();
    assert_eq!(entry.captured_at, 100);
    match entry.reading {
        Reading::Aranet4(a) => assert_eq!(a.co2, Some(697)),
        _ => panic!("wrong kind"),
    }
}

#[test]
fn service_frame_updates_store() {
    let mut state = State::new();
    let event = Event::ServiceFrames {
        device: 9,
        pairs: vec![(mitherm::SERVICE_ID, MITHERM_PAYLOAD.to_vec())],
    };
    let outcome = process_event(&mut state, 50, &event);
    assert_eq!(outcome.lookup, Some(9));
    let entry = state.store.get(9).unwrap();
    match entry.reading {
        Reading::MiTherm(a) => {
            assert_eq!(a.temperature, 2238);
            assert_eq!(a.humidity, 5444);
            assert_eq!(a.battery_mv, 3004);
            assert_eq!(a.battery_percent, 100);
        },
        _ => panic!("wrong kind"),
    }
}

#[test]
fn unknown_key_produces_no_mutation_and_no_error() {
    let mut state = State::new();
    // 0x004c is a known-foreign manufacturer key: observed, ignored.
    let event = Event::ManufacturerFrames {
        device: 7,
        pairs: vec![(0x004c, vec![1, 2, 3]), (0xbeef, ARANET4_PAYLOAD.to_vec())],
    };
    let outcome = process_event(&mut state, 100, &event);
    assert_eq!(outcome.lookup, None);
    // Unknown keys are not failures: nothing to log either.
    assert!(outcome.failed_keys.is_empty());
    assert_eq!(state.store.len(), 0);
    assert!(state.store.get(7).is_none());
}

#[test]
fn decode_failure_is_local_to_its_pair() {
    let mut state = State::new();
    // A truncated payload, then a good one, in one event: the failure does
    // not prevent the pair after it, and no other device is touched.
    let event = Event::ManufacturerFrames {
        device: 7,
        pairs: vec![
            (aranet4::MANUFACTURER_ID, vec![0u8; 3]),
            (aranet4::MANUFACTURER_ID, ARANET4_PAYLOAD.to_vec()),
        ],
    };
    let outcome = process_event(&mut state, 100, &event);
    // The rejected pair's key is surfaced for logging, nothing more.
    assert_eq!(outcome.failed_keys, vec![aranet4::MANUFACTURER_ID]);
    let entry = state.store.get(7).unwrap();
    match entry.reading {
        Reading::Aranet4(a) => assert_eq!(a.co2, Some(697)),
        _ => panic!("wrong kind"),
    }
}

#[test]
fn adapter_events_touch_nothing() {
    let mut state = State::new();
    assert_eq!(process_event(&mut state, 1, &Event::AdapterPowered { powered: true }).lookup, None);
    assert_eq!(
        process_event(&mut state, 2, &Event::AdapterDiscovering { discovering: false }).lookup,
        None
    );
    assert_eq!(state.store.len(), 0);
}

#[test]
fn known_device_requests_no_lookup() {
    let mut state = State::new();
    state.record_name(7, "office".to_string());
    let event = Event::ManufacturerFrames {
        device: 7,
        pairs: vec![(aranet4::MANUFACTURER_ID, ARANET4_PAYLOAD.to_vec())],
    };
    assert_eq!(process_event(&mut state, 100, &event).lookup, None);
}

#[test]
fn burst_then_tick_loses_no_update() {
    let mut state = State::new();
    let n = 5u64;
    for d in 0..n {
        let event = Event::ManufacturerFrames {
            device: d,
            pairs: vec![(aranet4::MANUFACTURER_ID, payload_with_co2(400 + d as u16))],
        };
        process_event(&mut state, 100 + d, &event);
    }
    // Overwrite device 0 with a later reading: the last update must win.
    let event = Event::ManufacturerFrames {
        device: 0,
        pairs: vec![(aranet4::MANUFACTURER_ID, payload_with_co2(999))],
    };
    process_event(&mut state, 200, &event);

    // The tick that follows reflects every update.
    match render(&state, 210, 1000, OutputMode::Structured) {
        Document::Structured(doc) => {
            assert_eq!(doc.aranet4.len(), n as usize);
            assert!(doc.mitherm.is_empty());
            for d in 1..n {
                let row = doc
                    .aranet4
                    .iter()
                    .find(|(id, _)| *id == DisplayId::Raw(d))
                    .expect("device missing from output");
                assert_eq!(row.1.co2, Some(400 + d as u16));
            }
            let row = doc
                .aranet4
                .iter()
                .find(|(id, _)| *id == DisplayId::Raw(0))
                .expect("device missing from output");
            assert_eq!(row.1.co2, Some(999));
        },
        _ => panic!("wrong document shape"),
    }
}

#[test]
fn summary_orders_by_descending_co2() {
    let mut state = State::new();
    for (d, co2) in [(1u64, 500u16), (2, 900), (3, 700)] {
        let event = Event::ManufacturerFrames {
            device: d,
            pairs: vec![(aranet4::MANUFACTURER_ID, payload_with_co2(co2))],
        };
        process_event(&mut state, 10, &event);
    }
    match render(&state, 10, 100, OutputMode::Summary) {
        Document::Summary(doc) => {
            let co2s: Vec<Option<u16>> = doc.lines.iter().map(|(_, a)| a.co2).collect();
            assert_eq!(co2s, vec![Some(900), Some(700), Some(500)]);
            assert_eq!(doc.lines[0].0, DisplayId::Raw(2));
        },
        _ => panic!("wrong document shape"),
    }
}

#[test]
fn names_resolve_in_output_with_raw_fallback() {
    let mut state = State::new();
    for d in [1u64, 2] {
        let event = Event::ManufacturerFrames {
            device: d,
            pairs: vec![(aranet4::MANUFACTURER_ID, ARANET4_PAYLOAD.to_vec())],
        };
        process_event(&mut state, 10, &event);
    }
    // One name resolves; the other lookup failed and is simply not recorded.
    state.record_name(1, "kitchen".to_string());
    match render(&state, 10, 100, OutputMode::Structured) {
        Document::Structured(doc) => {
            assert_eq!(doc.aranet4.len(), 2);
            assert_eq!(doc.aranet4[0].0, DisplayId::Named("kitchen".to_string()));
            assert_eq!(doc.aranet4[1].0, DisplayId::Raw(2));
        },
        _ => panic!("wrong document shape"),
    }
}

#[test]
fn structured_document_carries_both_kinds() {
    let mut state = State::new();
    let event = Event::ManufacturerFrames {
        device: 1,
        pairs: vec![(aranet4::MANUFACTURER_ID, ARANET4_PAYLOAD.to_vec())],
    };
    process_event(&mut state, 10, &event);
    let event = Event::ServiceFrames {
        device: 2,
        pairs: vec![(mitherm::SERVICE_ID, MITHERM_PAYLOAD.to_vec())],
    };
    process_event(&mut state, 12, &event);
    match render(&state, 20, 100, OutputMode::Structured) {
        Document::Structured(doc) => {
            assert_eq!(doc.aranet4.len(), 1);
            assert_eq!(doc.mitherm.len(), 1);
            assert_eq!(doc.mitherm[0].0, DisplayId::Raw(2));
            assert_eq!(doc.mitherm[0].1.battery_mv, 3004);
        },
        _ => panic!("wrong document shape"),
    }
}

#[test]
fn stale_entries_left_out_of_documents() {
    let mut state = State::new();
    let event = Event::ManufacturerFrames {
        device: 1,
        pairs: vec![(aranet4::MANUFACTURER_ID, ARANET4_PAYLOAD.to_vec())],
    };
    process_event(&mut state, 100, &event);
    match render(&state, 100 + 301, 300, OutputMode::Structured) {
        Document::Structured(doc) => {
            assert!(doc.aranet4.is_empty());
            assert!(doc.mitherm.is_empty());
        },
        _ => panic!("wrong document shape"),
    }
    // The mode changes presentation only, never staleness.
    match render(&state, 100 + 301, 300, OutputMode::Summary) {
        Document::Summary(doc) => assert!(doc.lines.is_empty()),
        _ => panic!("wrong document shape"),
    }
}
