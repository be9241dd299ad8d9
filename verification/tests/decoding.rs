use dht_embedded::decode::{decode, Variant};
use dht_embedded::frame::{checksum_of, set_bit};
use dht_embedded::{DhtError, InterruptControl, NoopInterruptControl};

#[test]
fn dht22_frame_decodes_to_tenths() {
    let reading = decode::<u8>(Variant::Dht22, &[0x02, 0x58, 0x01, 0x0A, 0x65]).unwrap();
    assert_eq!(reading.humidity(), 600);
    assert_eq!(reading.temperature(), 266);
}

#[test]
fn dht22_sign_bit_negates_the_temperature() {
    let reading = decode::<u8>(Variant::Dht22, &[0x02, 0x58, 0x81, 0x0A, 0xE5]).unwrap();
    assert_eq!(reading.humidity(), 600);
    assert_eq!(reading.temperature(), -266);
}

#[test]
fn dht22_sign_bit_is_not_part_of_the_magnitude() {
    assert_eq!(Variant::Dht22.parse_data(&[0, 0, 0xFF, 0xFF, 0]), (0, -32767));
    assert_eq!(Variant::Dht22.parse_data(&[0, 0, 0x7F, 0xFF, 0]), (0, 32767));
    assert_eq!(Variant::Dht22.parse_data(&[0, 0, 0x80, 0x00, 0]), (0, 0));
    assert_eq!(Variant::Dht22.parse_data(&[0, 0, 0x80, 0x01, 0]), (0, -1));
}

#[test]
fn dht11_frame_decodes_whole_units() {
    let reading = decode::<u8>(Variant::Dht11, &[45, 0, 26, 0, 71]).unwrap();
    assert_eq!(reading.humidity(), 450);
    assert_eq!(reading.temperature(), 260);
}

#[test]
fn dht11_ignores_the_fraction_bytes() {
    assert_eq!(Variant::Dht11.parse_data(&[45, 9, 26, 7, 0]), (450, 260));
    let reading = decode::<u8>(Variant::Dht11, &[45, 9, 26, 7, 87]).unwrap();
    assert_eq!(reading.humidity(), 450);
    assert_eq!(reading.temperature(), 260);
}

#[test]
fn parse_data_reads_both_bytes_of_the_humidity() {
    assert_eq!(Variant::Dht22.parse_data(&[0xFF, 0xFF, 0, 0, 0]), (65535, 0));
    assert_eq!(Variant::Dht22.parse_data(&[0x01, 0x00, 0, 0, 0]), (256, 0));
    assert_eq!(Variant::Dht11.parse_data(&[255, 0, 255, 0, 0]), (2550, 2550));
}

#[test]
fn same_frame_means_different_things_to_the_two_sensors() {
    let frame = [0x00, 0x28, 0x00, 0x19, 0x41];
    let as_dht22 = decode::<u8>(Variant::Dht22, &frame).unwrap();
    let as_dht11 = decode::<u8>(Variant::Dht11, &frame).unwrap();
    assert_eq!((as_dht22.humidity(), as_dht22.temperature()), (40, 25));
    assert_eq!((as_dht11.humidity(), as_dht11.temperature()), (0, 0));
}

#[test]
fn wrong_checksum_reports_sent_and_computed() {
    let verdict = decode::<u8>(Variant::Dht22, &[0x02, 0x58, 0x01, 0x0A, 0x66]);
    assert_eq!(verdict, Err(DhtError::ChecksumMismatch(0x66, 0x65)));
    let verdict = decode::<u8>(Variant::Dht11, &[45, 0, 26, 0, 0]);
    assert_eq!(verdict, Err(DhtError::ChecksumMismatch(0, 71)));
}

#[test]
fn checksum_wraps_at_256() {
    assert_eq!(checksum_of(&[0xFF, 0xFF, 0xFF, 0xFF, 0]), 0xFC);
    assert_eq!(checksum_of(&[0x80, 0x80, 0, 0, 0x55]), 0);
    assert_eq!(checksum_of(&[1, 2, 3, 4, 200]), 10);
    let verdict = decode::<u8>(Variant::Dht22, &[0x01, 0xFF, 0x00, 0x05, 0x05]);
    let reading = verdict.unwrap();
    assert_eq!(reading.humidity(), 511);
    assert_eq!(reading.temperature(), 5);
}

#[test]
fn checksum_is_checked_before_the_range() {
    let verdict = decode::<u8>(Variant::Dht22, &[0xFF, 0xFF, 0, 0, 0]);
    assert_eq!(verdict, Err(DhtError::ChecksumMismatch(0, 0xFE)));
}

#[test]
fn humidity_of_exactly_one_hundred_percent_is_accepted() {
    let reading = decode::<u8>(Variant::Dht22, &[0x03, 0xE8, 0, 0, 0xEB]).unwrap();
    assert_eq!(reading.humidity(), 1000);
    let reading = decode::<u8>(Variant::Dht11, &[100, 0, 0, 0, 100]).unwrap();
    assert_eq!(reading.humidity(), 1000);
}

#[test]
fn humidity_of_zero_is_accepted() {
    let reading = decode::<u8>(Variant::Dht22, &[0, 0, 0, 0, 0]).unwrap();
    assert_eq!(reading.humidity(), 0);
    assert_eq!(reading.temperature(), 0);
    let reading = decode::<u8>(Variant::Dht11, &[0, 0, 0, 0, 0]).unwrap();
    assert_eq!(reading.humidity(), 0);
}

#[test]
fn humidity_above_one_hundred_percent_is_invalid() {
    let verdict = decode::<u8>(Variant::Dht22, &[0x03, 0xE9, 0, 0, 0xEC]);
    assert_eq!(verdict, Err(DhtError::InvalidData));
    let verdict = decode::<u8>(Variant::Dht11, &[101, 0, 0, 0, 101]);
    assert_eq!(verdict, Err(DhtError::InvalidData));
    let verdict = decode::<u8>(Variant::Dht22, &[0xFF, 0xFF, 0, 0, 0xFE]);
    assert_eq!(verdict, Err(DhtError::InvalidData));
}

#[test]
fn temperature_is_not_range_checked() {
    let reading = decode::<u8>(Variant::Dht22, &[0, 0, 0xFF, 0xFF, 0xFE]).unwrap();
    assert_eq!(reading.temperature(), -32767);
    let reading = decode::<u8>(Variant::Dht11, &[0, 0, 255, 0, 255]).unwrap();
    assert_eq!(reading.temperature(), 2550);
}

#[test]
fn set_bit_fills_bytes_from_the_top() {
    let mut frame = [0u8; 5];
    set_bit(&mut frame, 0);
    assert_eq!(frame, [0x80, 0, 0, 0, 0]);
    set_bit(&mut frame, 7);
    assert_eq!(frame, [0x81, 0, 0, 0, 0]);
    set_bit(&mut frame, 8);
    assert_eq!(frame, [0x81, 0x80, 0, 0, 0]);
    set_bit(&mut frame, 39);
    assert_eq!(frame, [0x81, 0x80, 0, 0, 0x01]);
    set_bit(&mut frame, 39);
    assert_eq!(frame, [0x81, 0x80, 0, 0, 0x01]);
    set_bit(&mut frame, 20);
    assert_eq!(frame, [0x81, 0x80, 0x08, 0, 0x01]);
}

#[test]
fn pin_error_converts_into_dht_error() {
    let error: DhtError<u8> = DhtError::from(9u8);
    assert_eq!(error, DhtError::PinError(9));
    let error: DhtError<&str> = "stuck".into();
    assert_eq!(error, DhtError::PinError("stuck"));
}

#[test]
fn reading_is_a_plain_copyable_value() {
    let reading = decode::<u8>(Variant::Dht22, &[0x02, 0x58, 0x01, 0x0A, 0x65]).unwrap();
    let copy = reading;
    assert_eq!(copy, reading);
    assert_eq!(format!("{:?}", copy), "Reading { humidity: 600, temperature: 266 }");
}

#[test]
fn noop_interrupt_control_does_nothing() {
    let mut guard = NoopInterruptControl;
    guard.disable_interrupts();
    guard.enable_interrupts();
    guard.enable_interrupts();
}
