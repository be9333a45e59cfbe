use airmon::aranet4;
use airmon::error::DecodeError;
use airmon::mitherm;

const ARANET4_PAYLOAD: [u8; 22] = [
    0x21, 0x13, 0x04, 0x01, 0x00, 0x0c, 0x0f, 0x01, 0xb9, 0x02, 0xd9, 0x01, 0x4b, 0x27, 0x33,
    0x14, 0x01, 0x3c, 0x00, 0x3c, 0x00, 0xc6,
];

const MITHERM_PAYLOAD: [u8; 15] = [
    0x80, 0x49, 0xd8, 0x38, 0xc1, 0xa4, 0xbe, 0x08, 0x44, 0x15, 0xbc, 0x0b, 0x64, 0xef, 0x04,
];

#[test]
fn aranet4_test_announcement() {
    let ann = aranet4::Announcement::decode(&ARANET4_PAYLOAD).unwrap();
    assert_eq!(
        (
            Some(697u16),
            Some(23.650000000000002),
            Some(1005.9000000000001),
            51u8,
            20u8,
            1u8,
        ),
        (
            ann.co2,
            ann.temperature.map(|v| v as f64 * 0.05),
            ann.pressure.map(|v| v as f64 * 0.1),
            ann.humidity,
            ann.battery,
            ann.status,
        )
    );
}

#[test]
fn mitherm_test_announcement() {
    let ann = mitherm::Announcement::decode(&MITHERM_PAYLOAD).unwrap();
    assert_eq!(
        (22.38, 54.44, 100u8, 3004u16),
        (
            ann.temperature as f64 * 0.01,
            ann.humidity as f64 * 0.01,
            ann.battery_percent,
            ann.battery_mv,
        )
    );
}

#[test]
fn decoding_is_pure() {
    let a = aranet4::Announcement::decode(&ARANET4_PAYLOAD);
    let b = aranet4::Announcement::decode(&ARANET4_PAYLOAD);
    assert_eq!(a, b);

    let m1 = mitherm::Announcement::decode(&MITHERM_PAYLOAD);
    let m2 = mitherm::Announcement::decode(&MITHERM_PAYLOAD);
    assert_eq!(m1, m2);

    let short = [0u8; 5];
    let e1 = aranet4::Announcement::decode(&short);
    let e2 = aranet4::Announcement::decode(&short);
    assert_eq!(e1, e2);
}

#[test]
fn aranet4_co2_sentinel_independent() {
    let mut payload = ARANET4_PAYLOAD;
    // Set bit 15 of the co2 word at offset 8..10 (little endian).
    payload[9] |= 0x80;
    let ann = aranet4::Announcement::decode(&payload).unwrap();
    assert_eq!(ann.co2, None);
    // The other fields are untouched by the co2 sentinel.
    assert_eq!(ann.temperature, Some(473));
    assert_eq!(ann.pressure, Some(10059));
    assert_eq!(ann.humidity, 51);

    // Clearing bit 15 always yields a present value, whatever the rest.
    payload[9] &= 0x7f;
    let ann = aranet4::Announcement::decode(&payload).unwrap();
    assert_eq!(ann.co2, Some(697));
}

#[test]
fn aranet4_temperature_sentinel_independent() {
    let mut payload = ARANET4_PAYLOAD;
    // Set bit 14 of the temperature word at offset 10..12.
    payload[11] |= 0x40;
    let ann = aranet4::Announcement::decode(&payload).unwrap();
    assert_eq!(ann.temperature, None);
    assert_eq!(ann.co2, Some(697));
    assert_eq!(ann.pressure, Some(10059));

    payload[11] &= 0xbf;
    let ann = aranet4::Announcement::decode(&payload).unwrap();
    assert_eq!(ann.temperature, Some(473));
}

#[test]
fn aranet4_pressure_sentinel_independent() {
    let mut payload = ARANET4_PAYLOAD;
    // Set bit 15 of the pressure word at offset 12..14.
    payload[13] |= 0x80;
    let ann = aranet4::Announcement::decode(&payload).unwrap();
    assert_eq!(ann.pressure, None);
    assert_eq!(ann.co2, Some(697));
    assert_eq!(ann.temperature, Some(473));

    payload[13] &= 0x7f;
    let ann = aranet4::Announcement::decode(&payload).unwrap();
    assert_eq!(ann.pressure, Some(10059));
}

#[test]
fn aranet4_truncated_payloads_fail() {
    for len in 0..17 {
        let payload = vec![0xffu8; len];
        assert_eq!(
            aranet4::Announcement::decode(&payload),
            Err(DecodeError::Truncated),
            "length {} must be truncated",
            len
        );
    }
    // Exactly the minimum length decodes.
    let payload = vec![0u8; 17];
    assert!(aranet4::Announcement::decode(&payload).is_ok());
}

#[test]
fn mitherm_truncated_payloads_fail() {
    for len in 0..13 {
        let payload = vec![0xffu8; len];
        assert_eq!(
            mitherm::Announcement::decode(&payload),
            Err(DecodeError::Truncated),
            "length {} must be truncated",
            len
        );
    }
    let payload = vec![0u8; 13];
    assert!(mitherm::Announcement::decode(&payload).is_ok());
}

#[test]
fn aranet4_temperature_centi_c() {
    let ann = aranet4::Announcement::decode(&ARANET4_PAYLOAD).unwrap();
    assert_eq!(ann.temperature_centi_c(), Some(2365));

    let mut payload = ARANET4_PAYLOAD;
    payload[11] |= 0x40;
    let ann = aranet4::Announcement::decode(&payload).unwrap();
    assert_eq!(ann.temperature_centi_c(), None);
}
