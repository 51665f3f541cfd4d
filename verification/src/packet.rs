//! Decoding of the 64-byte interrupt reports that the tablet sends.
//!
//! A report carries the pen position as two big-endian signed 16-bit
//! values, the raw pen pressure as a big-endian unsigned 16-bit value,
//! the pen button byte and the two bytes of the tablet's express keys.
use vstd::prelude::*;

verus! {

/// Length of one interrupt report of the tablet.
pub const REPORT_LEN: usize = 64;

pub const X_AXIS_HIGH: usize = 1;

pub const X_AXIS_LOW: usize = 2;

pub const Y_AXIS_HIGH: usize = 3;

pub const Y_AXIS_LOW: usize = 4;

pub const PRESSURE_HIGH: usize = 5;

pub const PRESSURE_LOW: usize = 6;

pub const PEN_BUTTONS: usize = 9;

pub const TABLET_BUTTONS_HIGH: usize = 12;

pub const TABLET_BUTTONS_LOW: usize = 11;

/// Bits of the express-key word that no key of the tablet drives; they
/// always read as "released" (set).
pub const RESERVED_TABLET_BITS: u16 = 0xcc00;

/// The unsigned value of a big-endian byte pair.
pub open spec fn be_u16(high: u8, low: u8) -> int {
    high as int * 256 + low as int
}

/// The two's-complement reading of a 16-bit pattern given as `0..65536`.
pub open spec fn signed16(v: int) -> int {
    if v < 32768 {
        v
    } else {
        v - 65536
    }
}

/// The horizontal pen coordinate that a report carries.
pub open spec fn spec_x_axis(data: Seq<u8>) -> int {
    signed16(be_u16(data[X_AXIS_HIGH as int], data[X_AXIS_LOW as int]))
}

/// The vertical pen coordinate that a report carries; it is negative in
/// the strip of media keys above the drawing area.
pub open spec fn spec_y_axis(data: Seq<u8>) -> int {
    signed16(be_u16(data[Y_AXIS_HIGH as int], data[Y_AXIS_LOW as int]))
}

/// The raw pen pressure that a report carries (it falls as the pen is
/// pressed harder).
pub open spec fn spec_pressure(data: Seq<u8>) -> int {
    be_u16(data[PRESSURE_HIGH as int], data[PRESSURE_LOW as int])
}

/// The pen button byte of a report.
pub open spec fn spec_pen_buttons(data: Seq<u8>) -> u8 {
    data[PEN_BUTTONS as int]
}

/// The express-key word of a report: one bit per key, clear while the key
/// is held; the reserved bits are forced to "released", and a report too
/// short to hold the key bytes reads as the reserved bits alone.
pub open spec fn spec_tablet_flags(data: Seq<u8>) -> u16 {
    if TABLET_BUTTONS_HIGH >= data.len() || TABLET_BUTTONS_LOW >= data.len() {
        RESERVED_TABLET_BITS
    } else {
        (be_u16(data[TABLET_BUTTONS_HIGH as int], data[TABLET_BUTTONS_LOW as int]) as u16)
            | RESERVED_TABLET_BITS
    }
}

/// The bytes of the last report read from the tablet.
pub struct RawDataReader {
    pub data: Vec<u8>,
}

impl Default for RawDataReader {
    fn default() -> (r: Self)
        ensures
            r.data@ == Seq::<u8>::empty(),
    {
        RawDataReader { data: Vec::new() }
    }
}

impl RawDataReader {
    /// A reader with a zeroed buffer of one report's length.
    pub fn new() -> (r: Self)
        ensures
            r.data@.len() == REPORT_LEN,
            forall|i: int| 0 <= i < REPORT_LEN ==> r.data@[i] == 0,
    {
        RawDataReader { data: vec![0u8; REPORT_LEN] }
    }

    /// The big-endian unsigned value of `high` and `low`.
    pub fn u16_from_2_u8(&self, high: u8, low: u8) -> (r: u16)
        ensures
            r as int == be_u16(high, low),
    {
        assert(((high as u16) << 8u16 | low as u16) as int == high as int * 256 + low as int)
            by (bit_vector);
        (high as u16) << 8 | low as u16
    }

    /// The big-endian two's-complement value of `high` and `low`.
    pub fn i16_from_2_u8(&self, high: u8, low: u8) -> (r: i16)
        ensures
            r as int == signed16(be_u16(high, low)),
    {
        let u = self.u16_from_2_u8(high, low);
        assert(u < 32768 ==> (u as i16) as int == u as int) by (bit_vector);
        assert(u >= 32768 ==> (u as i16) as int == u as int - 65536) by (bit_vector);
        u as i16
    }

    pub fn x_axis(&self) -> (r: i32)
        requires
            self.data@.len() > X_AXIS_LOW,
        ensures
            r as int == spec_x_axis(self.data@),
    {
        let raw = self.i16_from_2_u8(self.data[X_AXIS_HIGH], self.data[X_AXIS_LOW]);
        raw as i32
    }

    pub fn y_axis(&self) -> (r: i32)
        requires
            self.data@.len() > Y_AXIS_LOW,
        ensures
            r as int == spec_y_axis(self.data@),
    {
        let raw = self.i16_from_2_u8(self.data[Y_AXIS_HIGH], self.data[Y_AXIS_LOW]);
        raw as i32
    }

    pub fn pressure(&self) -> (r: i32)
        requires
            self.data@.len() > PRESSURE_LOW,
        ensures
            r as int == spec_pressure(self.data@),
    {
        self.u16_from_2_u8(self.data[PRESSURE_HIGH], self.data[PRESSURE_LOW]) as i32
    }

    pub fn tablet_buttons_as_binary_flags(&self) -> (r: u16)
        ensures
            r == spec_tablet_flags(self.data@),
    {
        let idx_h = TABLET_BUTTONS_HIGH;
        let idx_l = TABLET_BUTTONS_LOW;

        if idx_h >= self.data.len() || idx_l >= self.data.len() {
            return RESERVED_TABLET_BITS;
        }
        self.u16_from_2_u8(self.data[idx_h], self.data[idx_l]) | RESERVED_TABLET_BITS
    }

    pub fn pen_buttons(&self) -> (r: u8)
        requires
            self.data@.len() > PEN_BUTTONS,
        ensures
            r == spec_pen_buttons(self.data@),
    {
        self.data[PEN_BUTTONS]
    }
}

/// Whatever a report holds, the reserved express-key bits read as
/// released, so no key event can ever come from them.
pub proof fn lemma_reserved_tablet_bits_read_released(data: Seq<u8>)
    ensures
        spec_tablet_flags(data) & RESERVED_TABLET_BITS == RESERVED_TABLET_BITS,
{
    if TABLET_BUTTONS_HIGH >= data.len() || TABLET_BUTTONS_LOW >= data.len() {
        assert(0xcc00u16 & 0xcc00u16 == 0xcc00u16) by (bit_vector);
    } else {
        let v = be_u16(data[TABLET_BUTTONS_HIGH as int], data[TABLET_BUTTONS_LOW as int]) as u16;
        assert((v | 0xcc00u16) & 0xcc00u16 == 0xcc00u16) by (bit_vector);
    }
}

/// The signed pen coordinates agree with the unsigned reading of the same
/// bytes modulo 2^16: both read one 16-bit pattern.
pub proof fn lemma_signed_reading_agrees_with_unsigned(high: u8, low: u8)
    ensures
        0 <= be_u16(high, low) < 65536,
        -32768 <= signed16(be_u16(high, low)) < 32768,
        (signed16(be_u16(high, low)) - be_u16(high, low)) % 65536 == 0,
        (signed16(be_u16(high, low)) < 0) == (high >= 128),
{
}

/// A byte pair is read high byte first: the value's high byte is `high`
/// and its low byte is `low`.
pub proof fn lemma_big_endian_bytes(high: u8, low: u8)
    ensures
        be_u16(high, low) / 256 == high,
        be_u16(high, low) % 256 == low,
{
}

} // verus!
