use tone_mark::sysex::{build_sysex, roland_checksum};

#[test]
fn checksum_of_empty_payload_is_zero() {
    assert_eq!(roland_checksum(&[]), 0);
}

#[test]
fn checksum_completes_sum_to_multiple_of_128() {
    assert_eq!(roland_checksum(&[0x60, 0x00, 0x00, 0x10, 0x05]), 11);
    assert_eq!(roland_checksum(&[0x40]), 0x40);
    assert_eq!(roland_checksum(&[0x80]), 0);
    assert_eq!(roland_checksum(&[0x7F, 0x7F, 0x7F]), 3);
}

#[test]
fn build_sysex_frames_address_payload_and_checksum() {
    let msg = build_sysex([0x60, 0x00, 0x06, 0x10], &[0x01]);
    assert_eq!(
        msg,
        vec![0xF0, 0x41, 0x00, 0x00, 0x00, 0x00, 0x33, 0x12, 0x60, 0x00, 0x06, 0x10, 0x01, 0x09, 0xF7]
    );
}

#[test]
fn sysex_data_bytes_sum_to_multiple_of_128() {
    let payload = [0x12, 0x7F, 0x00, 0x55, 0x33];
    let msg = build_sysex([0x10, 0x00, 0x05, 0x20], &payload);
    assert_eq!(msg.len(), 14 + payload.len());
    assert_eq!(msg[0], 0xF0);
    assert_eq!(*msg.last().unwrap(), 0xF7);
    let sum: u32 = msg[8..msg.len() - 1].iter().map(|&b| b as u32).sum();
    assert_eq!(sum % 128, 0);
}

#[test]
fn build_sysex_with_empty_payload() {
    let msg = build_sysex([0x60, 0x00, 0x00, 0x00], &[]);
    assert_eq!(msg, vec![0xF0, 0x41, 0x00, 0x00, 0x00, 0x00, 0x33, 0x12, 0x60, 0x00, 0x00, 0x00, 0x20, 0xF7]);
}

#[test]
fn checksum_of_long_payload_wraps_modulo_128() {
    let payload = vec![0xFFu8; 1000];
    let sum: u32 = payload.iter().map(|&b| b as u32).sum();
    let rem = (sum % 128) as u8;
    let expected = if rem == 0 { 0 } else { 128 - rem };
    assert_eq!(roland_checksum(&payload), expected);
}
