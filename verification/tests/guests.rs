use pico_wasm_host::guest::morse::{MyGuest, Signal};
use pico_wasm_host::guest::sensor::{
    is_bme280, read_calibration_data, read_raw_humidity, read_raw_temp, read_register, register_payload,
    write_register, Bme280Calib,
};

#[test]
fn dot_and_dash_differ_in_the_flash() {
    assert_eq!(MyGuest::dot(), vec![Signal::On, Signal::Delay(100), Signal::Off, Signal::Delay(100)]);
    assert_eq!(MyGuest::dash(), vec![Signal::On, Signal::Delay(400), Signal::Off, Signal::Delay(100)]);
}

#[test]
fn sos_is_three_dots_three_dashes_three_dots() {
    let dot = [Signal::On, Signal::Delay(100), Signal::Off, Signal::Delay(100)];
    let dash = [Signal::On, Signal::Delay(400), Signal::Off, Signal::Delay(100)];
    let mut expected = Vec::new();
    for _ in 0..3 {
        expected.extend(dot);
    }
    expected.push(Signal::Delay(200));
    for _ in 0..3 {
        expected.extend(dash);
    }
    expected.push(Signal::Delay(200));
    for _ in 0..3 {
        expected.extend(dot);
    }
    expected.push(Signal::Delay(1000));
    let sos = MyGuest::sos();
    assert_eq!(sos.len(), 39);
    assert_eq!(sos, expected);
}

#[test]
fn register_frames() {
    assert_eq!(read_register(0xD0, 1), vec![0xD0, 0]);
    assert_eq!(read_register(0x08, 6), vec![0x88, 0, 0, 0, 0, 0, 0]);
    assert_eq!(read_register(0x7A, 0), vec![0xFA]);
    assert_eq!(write_register(0xF2, 0x01), vec![0x72, 0x01]);
    assert_eq!(write_register(0x74, 0x27), vec![0x74, 0x27]);
    assert_eq!(register_payload(&vec![0xFF, 1, 2, 3]), vec![1, 2, 3]);
    assert_eq!(register_payload(&vec![0xFF]), Vec::<u8>::new());
    assert!(is_bme280(0x60));
    assert!(!is_bme280(0x58));
}

#[test]
fn calibration_is_little_endian_and_signed() {
    let t = vec![0x70, 0x6B, 0x43, 0x67, 0x18, 0xFC];
    let h1 = vec![0x4B];
    let h = vec![0x6D, 0x01, 0x00, 0x13, 0x2C, 0x03, 0x1E];
    let calib = read_calibration_data(&t, &h1, &h);
    assert_eq!(
        calib,
        Bme280Calib {
            dig_t1: 27504,
            dig_t2: 26435,
            dig_t3: -1000,
            dig_h1: 75,
            dig_h2: 365,
            dig_h3: 0,
            dig_h4: 316,
            dig_h5: 50,
            dig_h6: 30,
        }
    );
    let calib = read_calibration_data(&vec![0xFF; 6], &vec![0xFF], &vec![0xFF; 7]);
    assert_eq!(
        calib,
        Bme280Calib {
            dig_t1: 65535,
            dig_t2: -1,
            dig_t3: -1,
            dig_h1: 255,
            dig_h2: -1,
            dig_h3: 255,
            dig_h4: 4095,
            dig_h5: 4095,
            dig_h6: -1,
        }
    );
    let calib = read_calibration_data(&vec![0, 0, 0, 0x80, 0xFF, 0x7F], &vec![0], &vec![0, 0, 0, 0, 0xA5, 0, 0x80]);
    assert_eq!((calib.dig_t2, calib.dig_t3, calib.dig_h4, calib.dig_h5, calib.dig_h6), (-32768, 32767, 5, 10, -128));
}

#[test]
fn raw_readings_are_big_endian() {
    assert_eq!(read_raw_temp(&vec![0x80, 0x00, 0x00]), 524288);
    assert_eq!(read_raw_temp(&vec![0x7E, 0xED, 0x50]), 519893);
    assert_eq!(read_raw_temp(&vec![0xFF, 0xFF, 0xFF]), 0xFFFFF);
    assert_eq!(read_raw_humidity(&vec![0x80, 0x00]), 32768);
    assert_eq!(read_raw_humidity(&vec![0x6E, 0x2B]), 28203);
}
