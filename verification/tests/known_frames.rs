use onewire_temp::crc::{check_crc8, crc8};
use onewire_temp::error::Error;

#[test]
fn crc8_of_known_frames() {
    assert_eq!(crc8(&[99, 1, 75, 70, 127, 255, 13, 16]), 21);
    assert_eq!(crc8(&[97, 1, 75, 70, 127, 255, 15, 16]), 2);
    assert_eq!(crc8(&[95, 1, 75, 70, 127, 255, 1, 16]), 155);
}

#[test]
fn crc8_of_sealed_frame_is_zero() {
    assert_eq!(crc8(&[99, 1, 75, 70, 127, 255, 13, 16, 21]), 0);
    assert_eq!(crc8(&[97, 1, 75, 70, 127, 255, 15, 16, 2]), 0);
    assert_eq!(crc8(&[95, 1, 75, 70, 127, 255, 1, 16, 155]), 0);
    assert_eq!(check_crc8(&[99, 1, 75, 70, 127, 255, 13, 16, 21]), Ok(()));
    assert_eq!(check_crc8(&[99, 1, 75, 70, 127, 255, 13, 16, 22]), Err(Error::CrcMismatch));
}
