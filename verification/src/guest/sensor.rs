//! The guest that reads a BME280 over the bus: the frames it sends to reach
//! a register, and what the bytes that come back mean.
//!
//! A register is read with one full-duplex transfer: the address goes out
//! with its top bit set, followed by as many zero bytes as are to be read;
//! the first byte that comes back is noise. It is written with the top bit
//! clear, followed by the value.

use vstd::prelude::*;

verus! {

/// The register that holds the chip id.
pub const CHIP_ID_REGISTER: u8 = 0xD0;

/// The id of a BME280.
pub const CHIP_ID: u8 = 0x60;

/// The trimming values that the chip was given at the factory, as far as
/// temperature and humidity need them.
#[derive(Clone, Copy, Debug, PartialEq, Eq, Structural)]
pub struct Bme280Calib {
    pub dig_t1: u16,
    pub dig_t2: i16,
    pub dig_t3: i16,
    pub dig_h1: u8,
    pub dig_h2: i16,
    pub dig_h3: u8,
    pub dig_h4: i16,
    pub dig_h5: i16,
    pub dig_h6: i8,
}

/// The unsigned 16-bit number with low byte `lo` and high byte `hi`.
pub open spec fn le_u16(lo: u8, hi: u8) -> int {
    lo + 256 * hi
}

/// The signed 16-bit number, in two's complement, with low byte `lo` and
/// high byte `hi`.
pub open spec fn le_i16(lo: u8, hi: u8) -> int {
    if hi >= 128 {
        lo + 256 * hi - 65536
    } else {
        lo + 256 * hi
    }
}

/// The signed 8-bit number, in two's complement, that the byte stands for.
pub open spec fn signed(byte: u8) -> int {
    if byte >= 128 {
        byte - 256
    } else {
        byte as int
    }
}

/// The trimming values in the three blocks read from the chip: six bytes
/// from 0x88, one from 0xA1, seven from 0xE1.
pub open spec fn calibration(t: Seq<u8>, h1: Seq<u8>, h: Seq<u8>) -> Bme280Calib
    recommends
        t.len() >= 6,
        h1.len() >= 1,
        h.len() >= 7,
{
    Bme280Calib {
        dig_t1: le_u16(t[0], t[1]) as u16,
        dig_t2: le_i16(t[2], t[3]) as i16,
        dig_t3: le_i16(t[4], t[5]) as i16,
        dig_h1: h1[0],
        dig_h2: le_i16(h[0], h[1]) as i16,
        dig_h3: h[2],
        dig_h4: (h[3] * 16 + h[4] % 16) as i16,
        dig_h5: (h[5] * 16 + h[4] / 16) as i16,
        dig_h6: signed(h[6]) as i8,
    }
}

fn word(lo: u8, hi: u8) -> (value: i16)
    ensures
        value == le_i16(lo, hi),
{
    let unsigned: i32 = lo as i32 + 256 * (hi as i32);
    if unsigned >= 32768 {
        (unsigned - 65536) as i16
    } else {
        unsigned as i16
    }
}

/// The frame that reads `len` bytes starting at register `reg`.
pub fn read_register(reg: u8, len: u64) -> (frame: Vec<u8>)
    requires
        len < usize::MAX,
    ensures
        frame@.len() == len + 1,
        frame@[0] == reg | 0x80,
        forall|i: int| 1 <= i <= len ==> frame@[i] == 0,
{
    let mut frame: Vec<u8> = Vec::new();
    frame.push(reg | 0x80);
    let mut i: u64 = 0;
    while i < len
        invariant
            i <= len < usize::MAX,
            frame@.len() == i + 1,
            frame@[0] == reg | 0x80,
            forall|k: int| 1 <= k <= i ==> frame@[k] == 0,
        decreases len - i,
    {
        frame.push(0);
        i += 1;
    }
    frame
}

/// What a register read brought: the bytes that came back, without the
/// first.
pub fn register_payload(rx: &Vec<u8>) -> (data: Vec<u8>)
    requires
        rx@.len() >= 1,
    ensures
        data@ == rx@.subrange(1, rx@.len() as int),
{
    let mut data: Vec<u8> = Vec::new();
    let mut i: usize = 1;
    while i < rx.len()
        invariant
            1 <= i <= rx.len(),
            data@ == rx@.subrange(1, i as int),
        decreases rx.len() - i,
    {
        data.push(rx[i]);
        assert(data@ =~= rx@.subrange(1, i + 1));
        i += 1;
    }
    assert(data@ =~= rx@.subrange(1, rx@.len() as int));
    data
}

/// The frame that writes `value` to register `reg`.
pub fn write_register(reg: u8, value: u8) -> (frame: Vec<u8>)
    ensures
        frame@ == seq![reg & 0x7F, value],
{
    let frame = vec![reg & !0x80, value];
    assert(reg & !0x80u8 == reg & 0x7F) by (bit_vector);
    assert(frame@ =~= seq![reg & 0x7F, value]);
    frame
}

/// Whether the chip that answered is a BME280.
pub fn is_bme280(chip_id: u8) -> (known: bool)
    ensures
        known == (chip_id == CHIP_ID),
{
    chip_id == CHIP_ID
}

/// Reads the trimming values out of the three blocks read from the chip:
/// six bytes from 0x88, one from 0xA1, seven from 0xE1.
pub fn read_calibration_data(t_data: &Vec<u8>, h1_data: &Vec<u8>, h_data: &Vec<u8>) -> (calib:
    Bme280Calib)
    requires
        t_data@.len() >= 6,
        h1_data@.len() >= 1,
        h_data@.len() >= 7,
    ensures
        calib == calibration(t_data@, h1_data@, h_data@),
{
    let dig_t1: u16 = t_data[0] as u16 + 256 * (t_data[1] as u16);
    let dig_t2 = word(t_data[2], t_data[3]);
    let dig_t3 = word(t_data[4], t_data[5]);
    let dig_h1 = h1_data[0];
    let dig_h2 = word(h_data[0], h_data[1]);
    let dig_h3 = h_data[2];
    let dig_h4: i16 = (h_data[3] as i16) * 16 + (h_data[4] as i16) % 16;
    let dig_h5: i16 = (h_data[5] as i16) * 16 + (h_data[4] as i16) / 16;
    let dig_h6: i8 = if h_data[6] >= 128 {
        (h_data[6] as i16 - 256) as i8
    } else {
        h_data[6] as i8
    };
    Bme280Calib { dig_t1, dig_t2, dig_t3, dig_h1, dig_h2, dig_h3, dig_h4, dig_h5, dig_h6 }
}

/// The raw temperature in the three bytes read from 0xFA: twenty bits,
/// most significant byte first, the last byte giving its upper half.
pub fn read_raw_temp(data: &Vec<u8>) -> (raw: i32)
    requires
        data@.len() >= 3,
    ensures
        raw == data@[0] * 4096 + data@[1] * 16 + data@[2] / 16,
{
    (data[0] as i32) * 4096 + (data[1] as i32) * 16 + (data[2] as i32) / 16
}

/// The raw humidity in the two bytes read from 0xFD: sixteen bits, most
/// significant byte first.
pub fn read_raw_humidity(data: &Vec<u8>) -> (raw: i32)
    requires
        data@.len() >= 2,
    ensures
        raw == data@[0] * 256 + data@[1],
{
    (data[0] as i32) * 256 + data[1] as i32
}

} // verus!
