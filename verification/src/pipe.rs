//! The monitor pipe: the payloads the hardware monitor sends, the commands
//! sent back to it, and the decisions of the connection loop.

use vstd::prelude::*;
use vstd::string::*;
use vstd::utf8::{decode_utf8, valid_utf8};

use crate::text::{
    decode_lossy, lemma_trim_by_trimmed, lossy_string, string_from_chars, strip_pred, trim_nul, trim_slice,
    trim_white_space, utf8_lossy,
};
use crate::wire::{
    i16_from_le, i16_le_bytes, i32_from_le, le_i16, le_i32, le_u32, lemma_i16_roundtrip, push_bytes,
    push_i16_le, u32_from_le, wrap_i16,
};

verus! {

/// The error of every read past the end of a payload.
pub open spec fn end_of_payload() -> Seq<char> {
    "Unexpected end of payload"@
}

fn end_of_payload_error() -> (e: String)
    ensures
        e@ == end_of_payload(),
{
    String::from_str("Unexpected end of payload")
}

/// Reading a little-endian `i16` at `off`: the value and the offset after it.
pub open spec fn spec_read_i16(d: Seq<u8>, off: int) -> Option<(i16, int)> {
    if 0 <= off && off + 2 <= d.len() {
        Some((le_i16(d[off], d[off + 1]) as i16, off + 2))
    } else {
        None
    }
}

/// Reading a little-endian `i32` at `off`: the value and the offset after it.
pub open spec fn spec_read_i32(d: Seq<u8>, off: int) -> Option<(i32, int)> {
    if 0 <= off && off + 4 <= d.len() {
        Some((le_i32(d[off], d[off + 1], d[off + 2], d[off + 3]) as i32, off + 4))
    } else {
        None
    }
}

/// Reading the four bytes of a little-endian `f32` at `off`, as its bit
/// pattern: the bits and the offset after them.
pub open spec fn spec_read_f32_bits(d: Seq<u8>, off: int) -> Option<(u32, int)> {
    if 0 <= off && off + 4 <= d.len() {
        Some((le_u32(d[off], d[off + 1], d[off + 2], d[off + 3]) as u32, off + 4))
    } else {
        None
    }
}

/// Reading `len` bytes at `off` as lossy UTF-8: the text and the offset after
/// it. A negative length never fits.
pub open spec fn spec_read_string(d: Seq<u8>, off: int, len: int) -> Option<(Seq<char>, int)> {
    if 0 <= off && 0 <= len && off + len <= d.len() {
        Some((utf8_lossy(d.subrange(off, off + len)), off + len))
    } else {
        None
    }
}

/// A reader over a payload that moves forward as it reads.
pub struct ByteCursor<'a> {
    data: &'a [u8],
    offset: usize,
}

impl<'a> ByteCursor<'a> {
    #[verifier::type_invariant]
    closed spec fn inv(self) -> bool {
        self.offset <= self.data@.len()
    }

    /// The bytes the cursor reads.
    pub closed spec fn data(self) -> Seq<u8> {
        self.data@
    }

    /// The offset of the next read.
    pub closed spec fn pos(self) -> int {
        self.offset as int
    }

    /// A cursor at the start of `data`.
    pub fn new(data: &'a [u8]) -> (c: Self)
        ensures
            c.data() == data@,
            c.pos() == 0,
    {
        ByteCursor { data, offset: 0 }
    }

    /// The offset of the next read.
    pub fn offset(&self) -> (o: usize)
        ensures
            o == self.pos(),
            0 <= self.pos() <= self.data().len(),
    {
        proof {
            use_type_invariant(self);
        }
        self.offset
    }

    /// Reads a little-endian `i16`; past the end, fails and stays put.
    pub fn read_i16(&mut self) -> (r: Result<i16, String>)
        ensures
            final(self).data() == old(self).data(),
            match spec_read_i16(old(self).data(), old(self).pos()) {
                Some((v, next)) => r matches Ok(x) && x == v && final(self).pos() == next,
                None => r matches Err(e) && e@ == end_of_payload() && final(self).pos() == old(
                    self,
                ).pos(),
            },
    {
        proof {
            use_type_invariant(&*self);
        }
        if self.data.len() - self.offset < 2 {
            return Err(end_of_payload_error());
        }
        let v = i16_from_le(self.data[self.offset], self.data[self.offset + 1]);
        self.offset = self.offset + 2;
        Ok(v)
    }

    /// Reads a little-endian `i32`; past the end, fails and stays put.
    pub fn read_i32(&mut self) -> (r: Result<i32, String>)
        ensures
            final(self).data() == old(self).data(),
            match spec_read_i32(old(self).data(), old(self).pos()) {
                Some((v, next)) => r matches Ok(x) && x == v && final(self).pos() == next,
                None => r matches Err(e) && e@ == end_of_payload() && final(self).pos() == old(
                    self,
                ).pos(),
            },
    {
        proof {
            use_type_invariant(&*self);
        }
        if self.data.len() - self.offset < 4 {
            return Err(end_of_payload_error());
        }
        let o = self.offset;
        let v = i32_from_le(self.data[o], self.data[o + 1], self.data[o + 2], self.data[o + 3]);
        self.offset = o + 4;
        Ok(v)
    }

    /// Reads the four bytes of a little-endian `f32` and returns its bit
    /// pattern (`f32::from_bits` turns it into the number); past the end,
    /// fails and stays put.
    pub fn read_f32_bits(&mut self) -> (r: Result<u32, String>)
        ensures
            final(self).data() == old(self).data(),
            match spec_read_f32_bits(old(self).data(), old(self).pos()) {
                Some((v, next)) => r matches Ok(x) && x == v && final(self).pos() == next,
                None => r matches Err(e) && e@ == end_of_payload() && final(self).pos() == old(
                    self,
                ).pos(),
            },
    {
        proof {
            use_type_invariant(&*self);
        }
        if self.data.len() - self.offset < 4 {
            return Err(end_of_payload_error());
        }
        let o = self.offset;
        let v = u32_from_le(self.data[o], self.data[o + 1], self.data[o + 2], self.data[o + 3]);
        self.offset = o + 4;
        Ok(v)
    }

    /// Reads `len` bytes and decodes them as lossy UTF-8, returning the
    /// characters; past the end, fails and stays put.
    pub fn read_chars(&mut self, len: usize) -> (r: Result<Vec<char>, String>)
        ensures
            final(self).data() == old(self).data(),
            match spec_read_string(old(self).data(), old(self).pos(), len as int) {
                Some((s, next)) => r matches Ok(x) && x@ == s && final(self).pos() == next,
                None => r matches Err(e) && e@ == end_of_payload() && final(self).pos() == old(
                    self,
                ).pos(),
            },
            valid_utf8(old(self).data().subrange(old(self).pos(), old(self).pos() + len)) ==> (
            r matches Ok(x) ==> x@ == decode_utf8(
                old(self).data().subrange(old(self).pos(), old(self).pos() + len),
            )),
    {
        proof {
            use_type_invariant(&*self);
        }
        if self.data.len() - self.offset < len {
            return Err(end_of_payload_error());
        }
        let o = self.offset;
        let slice = vstd::slice::slice_subrange(self.data, o, o + len);
        let chars = decode_lossy(slice);
        self.offset = o + len;
        Ok(chars)
    }

    /// Reads `len` bytes as a lossy UTF-8 string; past the end, fails and
    /// stays put.
    pub fn read_string(&mut self, len: usize) -> (r: Result<String, String>)
        ensures
            final(self).data() == old(self).data(),
            match spec_read_string(old(self).data(), old(self).pos(), len as int) {
                Some((s, next)) => r matches Ok(x) && x@ == s && final(self).pos() == next,
                None => r matches Err(e) && e@ == end_of_payload() && final(self).pos() == old(
                    self,
                ).pos(),
            },
            valid_utf8(old(self).data().subrange(old(self).pos(), old(self).pos() + len)) ==> (
            r matches Ok(x) ==> x@ == decode_utf8(
                old(self).data().subrange(old(self).pos(), old(self).pos() + len),
            )),
    {
        proof {
            use_type_invariant(&*self);
        }
        if self.data.len() - self.offset < len {
            return Err(end_of_payload_error());
        }
        let o = self.offset;
        let slice = vstd::slice::slice_subrange(self.data, o, o + len);
        let text = lossy_string(slice);
        self.offset = o + len;
        Ok(text)
    }
}

/// A device that the monitor reports.
#[derive(Debug, PartialEq)]
pub struct Hardware {
    pub name: String,
    pub identifier: String,
    pub hardware_type: i32,
}

/// A `Hardware` with its strings taken as character sequences.
pub struct HardwareView {
    pub name: Seq<char>,
    pub identifier: Seq<char>,
    pub hardware_type: i32,
}

impl View for Hardware {
    type V = HardwareView;

    open spec fn view(&self) -> HardwareView {
        HardwareView {
            name: self.name@,
            identifier: self.identifier@,
            hardware_type: self.hardware_type,
        }
    }
}

/// A sensor reading that the monitor reports. The reading is an `f32`, kept
/// as its bit pattern (`f32::from_bits(value_bits)` is the number).
#[derive(Debug, PartialEq)]
pub struct Sensor {
    pub name: String,
    pub identifier: String,
    pub hardware_identifier: String,
    pub sensor_type: i32,
    pub value_bits: u32,
}

/// A `Sensor` with its strings taken as character sequences.
pub struct SensorView {
    pub name: Seq<char>,
    pub identifier: Seq<char>,
    pub hardware_identifier: Seq<char>,
    pub sensor_type: i32,
    pub value_bits: u32,
}

impl View for Sensor {
    type V = SensorView;

    open spec fn view(&self) -> SensorView {
        SensorView {
            name: self.name@,
            identifier: self.identifier@,
            hardware_identifier: self.hardware_identifier@,
            sensor_type: self.sensor_type,
            value_bits: self.value_bits,
        }
    }
}

/// The views of a list of devices.
pub open spec fn hardware_views(v: Seq<Hardware>) -> Seq<HardwareView> {
    v.map_values(|h: Hardware| h@)
}

/// The views of a list of sensors.
pub open spec fn sensor_views(v: Seq<Sensor>) -> Seq<SensorView> {
    v.map_values(|s: Sensor| s@)
}

/// The texts of a list of strings.
pub open spec fn string_views(v: Seq<String>) -> Seq<Seq<char>> {
    v.map_values(|s: String| s@)
}

/// What decoding a payload, or a record of one, gives.
#[derive(Debug, PartialEq)]
pub enum Decoded<T> {
    /// Every read stayed within the payload.
    Complete(T),
    /// A read ran past the end of the payload.
    Truncated,
    /// The payload announces a negative count (for an application list, one
    /// below -1), or a negative string length `-k` at an offset of at least
    /// `k`: what the monitor never sends, and on which the reader gives up.
    Malformed,
}

/// `r` with `prefix` put in front of the items it decoded.
pub open spec fn prefixed<A>(prefix: Seq<A>, r: Decoded<(Seq<A>, int)>) -> Decoded<(Seq<A>, int)> {
    match r {
        Decoded::Complete((rest, end)) => Decoded::Complete((prefix + rest, end)),
        Decoded::Truncated => Decoded::Truncated,
        Decoded::Malformed => Decoded::Malformed,
    }
}

/// What reading a string of negative length `len` at `off` gives: the length,
/// taken as a `usize`, wraps round to `len` bytes short of the address space,
/// so the end of the string lies past the end of the payload when `off` is
/// less than `-len`, and the end offset overflows otherwise.
pub open spec fn negative_length<T>(off: int, len: i16) -> Decoded<T> {
    if off + len < 0 {
        Decoded::Truncated
    } else {
        Decoded::Malformed
    }
}

/// One hardware record at `off`: name length and identifier length (`i16`),
/// the name, the identifier, and the type (`i32`).
pub open spec fn spec_hardware_at(d: Seq<u8>, off: int) -> Decoded<(HardwareView, int)> {
    match spec_read_i16(d, off) {
        None => Decoded::Truncated,
        Some((name_len, o1)) => match spec_read_i16(d, o1) {
            None => Decoded::Truncated,
            Some((id_len, o2)) => if name_len < 0 {
                negative_length(o2, name_len)
            } else {
                match spec_read_string(d, o2, name_len as int) {
                    None => Decoded::Truncated,
                    Some((name, o3)) => if id_len < 0 {
                        negative_length(o3, id_len)
                    } else {
                        match spec_read_string(d, o3, id_len as int) {
                            None => Decoded::Truncated,
                            Some((identifier, o4)) => match spec_read_i32(d, o4) {
                                None => Decoded::Truncated,
                                Some((hardware_type, o5)) => Decoded::Complete(
                                    (HardwareView { name, identifier, hardware_type }, o5),
                                ),
                            },
                        }
                    },
                }
            },
        },
    }
}

/// One sensor record at `off`: three string lengths (`i16`), the name, the
/// identifier, the hardware identifier, the type (`i32`) and the value (`f32`).
pub open spec fn spec_sensor_at(d: Seq<u8>, off: int) -> Decoded<(SensorView, int)> {
    match spec_read_i16(d, off) {
        None => Decoded::Truncated,
        Some((name_len, o1)) => match spec_read_i16(d, o1) {
            None => Decoded::Truncated,
            Some((id_len, o2)) => match spec_read_i16(d, o2) {
                None => Decoded::Truncated,
                Some((hw_id_len, o3)) => if name_len < 0 {
                    negative_length(o3, name_len)
                } else {
                    match spec_read_string(d, o3, name_len as int) {
                        None => Decoded::Truncated,
                        Some((name, o4)) => if id_len < 0 {
                            negative_length(o4, id_len)
                        } else {
                            match spec_read_string(d, o4, id_len as int) {
                                None => Decoded::Truncated,
                                Some((identifier, o5)) => if hw_id_len < 0 {
                                    negative_length(o5, hw_id_len)
                                } else {
                                    match spec_read_string(d, o5, hw_id_len as int) {
                                        None => Decoded::Truncated,
                                        Some((hardware_identifier, o6)) => match spec_read_i32(
                                            d,
                                            o6,
                                        ) {
                                            None => Decoded::Truncated,
                                            Some((sensor_type, o7)) => match spec_read_f32_bits(
                                                d,
                                                o7,
                                            ) {
                                                None => Decoded::Truncated,
                                                Some((value_bits, o8)) => Decoded::Complete(
                                                    (
                                                        SensorView {
                                                            name,
                                                            identifier,
                                                            hardware_identifier,
                                                            sensor_type,
                                                            value_bits,
                                                        },
                                                        o8,
                                                    ),
                                                ),
                                            },
                                        },
                                    }
                                },
                            }
                        },
                    }
                },
            },
        },
    }
}

/// `count` hardware records, one after another from `off`.
pub open spec fn spec_hardware_list(d: Seq<u8>, off: int, count: nat) -> Decoded<
    (Seq<HardwareView>, int),
>
    decreases count,
{
    if count == 0 {
        Decoded::Complete((seq![], off))
    } else {
        match spec_hardware_at(d, off) {
            Decoded::Truncated => Decoded::Truncated,
            Decoded::Malformed => Decoded::Malformed,
            Decoded::Complete((h, next)) => prefixed(
                seq![h],
                spec_hardware_list(d, next, (count - 1) as nat),
            ),
        }
    }
}

/// `count` sensor records, one after another from `off`.
pub open spec fn spec_sensor_list(d: Seq<u8>, off: int, count: nat) -> Decoded<
    (Seq<SensorView>, int),
>
    decreases count,
{
    if count == 0 {
        Decoded::Complete((seq![], off))
    } else {
        match spec_sensor_at(d, off) {
            Decoded::Truncated => Decoded::Truncated,
            Decoded::Malformed => Decoded::Malformed,
            Decoded::Complete((s, next)) => prefixed(
                seq![s],
                spec_sensor_list(d, next, (count - 1) as nat),
            ),
        }
    }
}

/// A data payload: the hardware count and the sensor count (`i32`), then the
/// hardware records and the sensor records.
pub open spec fn spec_decode_hardware_data(d: Seq<u8>) -> Decoded<
    (Seq<HardwareView>, Seq<SensorView>),
> {
    match spec_read_i32(d, 0) {
        None => Decoded::Truncated,
        Some((hw_count, o1)) => match spec_read_i32(d, o1) {
            None => Decoded::Truncated,
            Some((sensor_count, o2)) => if hw_count < 0 {
                Decoded::Malformed
            } else {
                match spec_hardware_list(d, o2, hw_count as nat) {
                    Decoded::Truncated => Decoded::Truncated,
                    Decoded::Malformed => Decoded::Malformed,
                    Decoded::Complete((hardwares, o3)) => if sensor_count < 0 {
                        Decoded::Malformed
                    } else {
                        match spec_sensor_list(d, o3, sensor_count as nat) {
                            Decoded::Truncated => Decoded::Truncated,
                            Decoded::Malformed => Decoded::Malformed,
                            Decoded::Complete((sensors, _)) => Decoded::Complete(
                                (hardwares, sensors),
                            ),
                        }
                    },
                }
            },
        },
    }
}

/// The outcome of a negative string length `len` read with `cursor`, as
/// `negative_length` states it.
fn negative_length_outcome<T>(cursor: &ByteCursor, len: i16) -> (r: Decoded<T>)
    requires
        len < 0,
    ensures
        r == negative_length::<T>(cursor.pos(), len),
{
    let off = cursor.offset();
    if (off as i128) + (len as i128) < 0 {
        Decoded::Truncated
    } else {
        Decoded::Malformed
    }
}

fn read_hardware(cursor: &mut ByteCursor) -> (r: Decoded<Hardware>)
    ensures
        final(cursor).data() == old(cursor).data(),
        match spec_hardware_at(old(cursor).data(), old(cursor).pos()) {
            Decoded::Complete((h, next)) => r matches Decoded::Complete(x) && x@ == h && final(cursor).pos() == next,
            Decoded::Truncated => r is Truncated,
            Decoded::Malformed => r is Malformed,
        },
{
    let name_len = match cursor.read_i16() {
        Ok(v) => v,
        Err(_) => return Decoded::Truncated,
    };
    let id_len = match cursor.read_i16() {
        Ok(v) => v,
        Err(_) => return Decoded::Truncated,
    };
    if name_len < 0 {
        return negative_length_outcome(cursor, name_len);
    }
    let name = match cursor.read_string(name_len as usize) {
        Ok(v) => v,
        Err(_) => return Decoded::Truncated,
    };
    if id_len < 0 {
        return negative_length_outcome(cursor, id_len);
    }
    let identifier = match cursor.read_string(id_len as usize) {
        Ok(v) => v,
        Err(_) => return Decoded::Truncated,
    };
    let hardware_type = match cursor.read_i32() {
        Ok(v) => v,
        Err(_) => return Decoded::Truncated,
    };
    Decoded::Complete(Hardware { name, identifier, hardware_type })
}

fn read_sensor(cursor: &mut ByteCursor) -> (r: Decoded<Sensor>)
    ensures
        final(cursor).data() == old(cursor).data(),
        match spec_sensor_at(old(cursor).data(), old(cursor).pos()) {
            Decoded::Complete((s, next)) => r matches Decoded::Complete(x) && x@ == s && final(cursor).pos() == next,
            Decoded::Truncated => r is Truncated,
            Decoded::Malformed => r is Malformed,
        },
{
    let name_len = match cursor.read_i16() {
        Ok(v) => v,
        Err(_) => return Decoded::Truncated,
    };
    let id_len = match cursor.read_i16() {
        Ok(v) => v,
        Err(_) => return Decoded::Truncated,
    };
    let hw_id_len = match cursor.read_i16() {
        Ok(v) => v,
        Err(_) => return Decoded::Truncated,
    };
    if name_len < 0 {
        return negative_length_outcome(cursor, name_len);
    }
    let name = match cursor.read_string(name_len as usize) {
        Ok(v) => v,
        Err(_) => return Decoded::Truncated,
    };
    if id_len < 0 {
        return negative_length_outcome(cursor, id_len);
    }
    let identifier = match cursor.read_string(id_len as usize) {
        Ok(v) => v,
        Err(_) => return Decoded::Truncated,
    };
    if hw_id_len < 0 {
        return negative_length_outcome(cursor, hw_id_len);
    }
    let hardware_identifier = match cursor.read_string(hw_id_len as usize) {
        Ok(v) => v,
        Err(_) => return Decoded::Truncated,
    };
    let sensor_type = match cursor.read_i32() {
        Ok(v) => v,
        Err(_) => return Decoded::Truncated,
    };
    let value_bits = match cursor.read_f32_bits() {
        Ok(v) => v,
        Err(_) => return Decoded::Truncated,
    };
    Decoded::Complete(Sensor { name, identifier, hardware_identifier, sensor_type, value_bits })
}

fn read_hardware_list(cursor: &mut ByteCursor, count: i32) -> (r: Decoded<Vec<Hardware>>)
    requires
        count >= 0,
    ensures
        final(cursor).data() == old(cursor).data(),
        match spec_hardware_list(old(cursor).data(), old(cursor).pos(), count as nat) {
            Decoded::Complete((hs, next)) => r matches Decoded::Complete(v) && hardware_views(v@)
                == hs && final(cursor).pos() == next,
            Decoded::Truncated => r is Truncated,
            Decoded::Malformed => r is Malformed,
        },
{
    let ghost d = cursor.data();
    let ghost start = cursor.pos();
    let mut items: Vec<Hardware> = Vec::new();
    let mut i: i32 = 0;
    while i < count
        invariant
            0 <= i <= count,
            cursor.data() == d,
            d == old(cursor).data(),
            start == old(cursor).pos(),
            spec_hardware_list(d, start, count as nat) == prefixed(
                hardware_views(items@),
                spec_hardware_list(d, cursor.pos(), (count - i) as nat),
            ),
        decreases count - i,
    {
        let ghost before = items@;
        let ghost pos = cursor.pos();
        let h = match read_hardware(cursor) {
            Decoded::Complete(h) => h,
            Decoded::Truncated => return Decoded::Truncated,
            Decoded::Malformed => return Decoded::Malformed,
        };
        items.push(h);
        proof {
            let n = (count - i) as nat;
            assert(hardware_views(items@) =~= hardware_views(before).push(h@));
            let tail = spec_hardware_list(d, cursor.pos(), (n - 1) as nat);
            if let Decoded::Complete((rest, end)) = tail {
                assert(hardware_views(before) + (seq![h@] + rest) =~= hardware_views(items@)
                    + rest);
            }
        }
        i = i + 1;
    }
    assert(hardware_views(items@) + seq![] =~= hardware_views(items@));
    Decoded::Complete(items)
}

fn read_sensor_list(cursor: &mut ByteCursor, count: i32) -> (r: Decoded<Vec<Sensor>>)
    requires
        count >= 0,
    ensures
        final(cursor).data() == old(cursor).data(),
        match spec_sensor_list(old(cursor).data(), old(cursor).pos(), count as nat) {
            Decoded::Complete((ss, next)) => r matches Decoded::Complete(v) && sensor_views(v@)
                == ss && final(cursor).pos() == next,
            Decoded::Truncated => r is Truncated,
            Decoded::Malformed => r is Malformed,
        },
{
    let ghost d = cursor.data();
    let ghost start = cursor.pos();
    let mut items: Vec<Sensor> = Vec::new();
    let mut i: i32 = 0;
    while i < count
        invariant
            0 <= i <= count,
            cursor.data() == d,
            d == old(cursor).data(),
            start == old(cursor).pos(),
            spec_sensor_list(d, start, count as nat) == prefixed(
                sensor_views(items@),
                spec_sensor_list(d, cursor.pos(), (count - i) as nat),
            ),
        decreases count - i,
    {
        let ghost before = items@;
        let s = match read_sensor(cursor) {
            Decoded::Complete(s) => s,
            Decoded::Truncated => return Decoded::Truncated,
            Decoded::Malformed => return Decoded::Malformed,
        };
        items.push(s);
        proof {
            let n = (count - i) as nat;
            assert(sensor_views(items@) =~= sensor_views(before).push(s@));
            let tail = spec_sensor_list(d, cursor.pos(), (n - 1) as nat);
            if let Decoded::Complete((rest, end)) = tail {
                assert(sensor_views(before) + (seq![s@] + rest) =~= sensor_views(items@) + rest);
            }
        }
        i = i + 1;
    }
    assert(sensor_views(items@) + seq![] =~= sensor_views(items@));
    Decoded::Complete(items)
}

/// The devices and sensors of a data payload.
#[derive(Debug, PartialEq)]
pub struct ParsedData {
    pub hardwares: Vec<Hardware>,
    pub sensors: Vec<Sensor>,
}

/// Decodes a data payload: two `i32` counts, then that many hardware records
/// and that many sensor records.
pub fn decode_hardware_data(payload: &[u8]) -> (r: Decoded<ParsedData>)
    ensures
        match spec_decode_hardware_data(payload@) {
            Decoded::Complete((hs, ss)) => r matches Decoded::Complete(p) && hardware_views(
                p.hardwares@,
            ) == hs && sensor_views(p.sensors@) == ss,
            Decoded::Truncated => r is Truncated,
            Decoded::Malformed => r is Malformed,
        },
{
    let mut cursor = ByteCursor::new(payload);
    let hw_count = match cursor.read_i32() {
        Ok(v) => v,
        Err(_) => return Decoded::Truncated,
    };
    let sensor_count = match cursor.read_i32() {
        Ok(v) => v,
        Err(_) => return Decoded::Truncated,
    };
    if hw_count < 0 {
        return Decoded::Malformed;
    }
    let hardwares = match read_hardware_list(&mut cursor, hw_count) {
        Decoded::Complete(v) => v,
        Decoded::Truncated => return Decoded::Truncated,
        Decoded::Malformed => return Decoded::Malformed,
    };
    if sensor_count < 0 {
        return Decoded::Malformed;
    }
    let sensors = match read_sensor_list(&mut cursor, sensor_count) {
        Decoded::Complete(v) => v,
        Decoded::Truncated => return Decoded::Truncated,
        Decoded::Malformed => return Decoded::Malformed,
    };
    Decoded::Complete(ParsedData { hardwares, sensors })
}

/// Parses a data payload on which the reader does not give up (see
/// `Decoded::Malformed`): the devices and sensors, or "Unexpected end of
/// payload" when a read runs past the end.
pub fn parse_hardware_data(payload: &[u8]) -> (r: Result<ParsedData, String>)
    requires
        !(spec_decode_hardware_data(payload@) is Malformed),
    ensures
        match spec_decode_hardware_data(payload@) {
            Decoded::Complete((hs, ss)) => r matches Ok(p) && hardware_views(p.hardwares@) == hs
                && sensor_views(p.sensors@) == ss,
            _ => r matches Err(e) && e@ == end_of_payload(),
        },
{
    match decode_hardware_data(payload) {
        Decoded::Complete(p) => Ok(p),
        _ => Err(end_of_payload_error()),
    }
}

/// The size of an application name slot in an application-list payload.
pub const NAME_SIZE: usize = 128;

/// An application name as the list keeps it: NULs stripped from both ends,
/// then white space.
pub open spec fn app_entry(raw: Seq<char>) -> Seq<char> {
    trim_white_space(trim_nul(raw))
}

/// The names of `count` name slots from `off`, empty names left out.
pub open spec fn spec_app_list(d: Seq<u8>, off: int, count: nat) -> Option<Seq<Seq<char>>>
    decreases count,
{
    if count == 0 {
        Some(seq![])
    } else {
        match spec_read_string(d, off, NAME_SIZE as int) {
            None => None,
            Some((raw, next)) => match spec_app_list(d, next, (count - 1) as nat) {
                None => None,
                Some(rest) => Some(
                    if app_entry(raw).len() == 0 {
                        rest
                    } else {
                        seq![app_entry(raw)] + rest
                    },
                ),
            },
        }
    }
}

/// The number of name slots that an application-list count announces: a
/// count of -1 announces none.
pub open spec fn app_slots(count: i16) -> nat {
    if count < 0 {
        0
    } else {
        count as nat
    }
}

/// An application-list payload: an `i16` count and that many name slots; the
/// list starts with "Auto". A count below -1 is malformed: the list's
/// capacity, the count taken as a `usize` plus one, does not fit in memory.
pub open spec fn spec_decode_present_mon_apps(d: Seq<u8>) -> Decoded<Seq<Seq<char>>> {
    match spec_read_i16(d, 0) {
        None => Decoded::Truncated,
        Some((count, o1)) => if count < -1 {
            Decoded::Malformed
        } else {
            match spec_app_list(d, o1, app_slots(count)) {
                None => Decoded::Truncated,
                Some(apps) => Decoded::Complete(seq!["Auto"@] + apps),
            }
        },
    }
}

/// Decodes an application-list payload: "Auto", then the non-empty names of
/// the announced slots, each stripped of NULs and white space at both ends.
pub fn decode_present_mon_apps(payload: &[u8]) -> (r: Decoded<Vec<String>>)
    ensures
        match spec_decode_present_mon_apps(payload@) {
            Decoded::Complete(apps) => r matches Decoded::Complete(v) && string_views(v@) == apps,
            Decoded::Truncated => r is Truncated,
            Decoded::Malformed => r is Malformed,
        },
{
    let mut cursor = ByteCursor::new(payload);
    let count = match cursor.read_i16() {
        Ok(v) => v,
        Err(_) => return Decoded::Truncated,
    };
    if count < -1 {
        return Decoded::Malformed;
    }
    let slots: i16 = if count < 0 {
        0
    } else {
        count
    };
    let ghost d = payload@;
    let ghost total = app_slots(count);
    let mut apps: Vec<String> = Vec::new();
    apps.push(String::from_str("Auto"));
    let mut i: i16 = 0;
    while i < slots
        invariant
            0 <= i <= slots,
            total == slots as nat,
            total == app_slots(count),
            count >= -1,
            cursor.data() == d,
            d == payload@,
            spec_read_i16(d, 0) == Some((count, 2int)),
            (match spec_app_list(d, 2, total) {
                Some(all) => Some(seq!["Auto"@] + all),
                None => None,
            }) == match spec_app_list(d, cursor.pos(), (total - i) as nat) {
                Some(rest) => Some(string_views(apps@) + rest),
                None => None,
            },
        decreases slots - i,
    {
        let ghost before = apps@;
        let ghost pos = cursor.pos();
        let raw = match cursor.read_chars(NAME_SIZE) {
            Ok(raw) => raw,
            Err(_) => {
                proof {
                    assert(spec_app_list(d, pos, (total - i) as nat) is None);
                }
                return Decoded::Truncated;
            },
        };
        let no_nul = trim_slice(raw.as_slice(), true);
        let cleaned = trim_slice(no_nul, false);
        if cleaned.len() > 0 {
            apps.push(string_from_chars(cleaned));
        }
        proof {
            let n = (total - i) as nat;
            let entry = app_entry(raw@);
            let tail = spec_app_list(d, cursor.pos(), (n - 1) as nat);
            if entry.len() > 0 {
                assert(string_views(apps@) =~= string_views(before).push(entry));
                if let Some(rest) = tail {
                    assert(string_views(before) + (seq![entry] + rest) =~= string_views(apps@)
                        + rest);
                }
            } else {
                assert(apps@ == before);
            }
        }
        i = i + 1;
    }
    assert(string_views(apps@) + seq![] =~= string_views(apps@));
    Decoded::Complete(apps)
}

/// Parses an application-list payload whose count is not below -1: the list,
/// or "Unexpected end of payload" when a slot runs past the end.
pub fn parse_present_mon_apps(payload: &[u8]) -> (r: Result<Vec<String>, String>)
    requires
        !(spec_decode_present_mon_apps(payload@) is Malformed),
    ensures
        match spec_decode_present_mon_apps(payload@) {
            Decoded::Complete(apps) => r matches Ok(v) && string_views(v@) == apps,
            _ => r matches Err(e) && e@ == end_of_payload(),
        },
{
    match decode_present_mon_apps(payload) {
        Decoded::Complete(apps) => Ok(apps),
        _ => Err(end_of_payload_error()),
    }
}

/// Command code of a data payload (devices and sensors).
pub const COMMAND_DATA: i16 = 0;

/// Command code of a request to resend the application list.
pub const COMMAND_REFRESH_APPS: i16 = 1;

/// Command code of a request to follow one application.
pub const COMMAND_SELECT_APP: i16 = 2;

/// Command code of an application-list payload.
pub const COMMAND_PRESENT_MON_APPS: i16 = 3;

/// Command code of a request to change the polling interval.
pub const COMMAND_POLLING_RATE: i16 = 4;

/// The packet that selects an application: the command, the byte length of
/// the name (truncated to `i16`, as `as i16` does) and the name's UTF-8 bytes.
pub open spec fn app_selection_packet(name: Seq<u8>) -> Seq<u8> {
    i16_le_bytes(COMMAND_SELECT_APP) + i16_le_bytes(wrap_i16(name.len() as int) as i16) + name
}

/// The packet that sets the polling interval: the command and the interval.
pub open spec fn polling_rate_packet(interval_ms: i16) -> Seq<u8> {
    i16_le_bytes(COMMAND_POLLING_RATE) + i16_le_bytes(interval_ms)
}

/// The packet that asks for the application list: the command alone.
pub open spec fn refresh_apps_packet() -> Seq<u8> {
    i16_le_bytes(COMMAND_REFRESH_APPS)
}

fn wrap_len_i16(len: usize) -> (v: i16)
    ensures
        v == wrap_i16(len as int),
{
    let m = len % 0x1_0000;
    if m >= 0x8000 {
        (m as i32 - 0x1_0000) as i16
    } else {
        m as i16
    }
}

/// Builds the packet that tells the monitor which application to follow.
pub fn present_mon_app_packet(name: &str) -> (packet: Vec<u8>)
    ensures
        packet@ == app_selection_packet(name.spec_bytes()),
{
    let name_bytes = name.as_bytes();
    let mut packet: Vec<u8> = Vec::new();
    push_i16_le(&mut packet, COMMAND_SELECT_APP);
    push_i16_le(&mut packet, wrap_len_i16(name_bytes.len()));
    push_bytes(&mut packet, name_bytes);
    packet
}

/// Builds the packet that sets the monitor's polling interval.
pub fn polling_rate_packet_bytes(interval_ms: i16) -> (packet: Vec<u8>)
    ensures
        packet@ == polling_rate_packet(interval_ms),
{
    let mut packet: Vec<u8> = Vec::new();
    push_i16_le(&mut packet, COMMAND_POLLING_RATE);
    push_i16_le(&mut packet, interval_ms);
    packet
}

/// Builds the packet that asks the monitor to resend the application list.
pub fn refresh_apps_packet_bytes() -> (packet: Vec<u8>)
    ensures
        packet@ == refresh_apps_packet(),
{
    let mut packet: Vec<u8> = Vec::new();
    push_i16_le(&mut packet, COMMAND_REFRESH_APPS);
    packet
}

/// Decodes the command field of a frame header.
pub fn frame_command(bytes: [u8; 2]) -> (command: i16)
    ensures
        command == le_i16(bytes[0], bytes[1]),
{
    i16_from_le(bytes[0], bytes[1])
}

/// Decodes the size field of a frame header: the payload length, or `None`
/// for a negative size, on which the connection is closed.
pub fn frame_payload_len(bytes: [u8; 4]) -> (len: Option<usize>)
    ensures
        le_i32(bytes[0], bytes[1], bytes[2], bytes[3]) < 0 ==> len is None,
        le_i32(bytes[0], bytes[1], bytes[2], bytes[3]) >= 0 ==> len == Some(
            le_i32(bytes[0], bytes[1], bytes[2], bytes[3]) as usize,
        ),
{
    let size = i32_from_le(bytes[0], bytes[1], bytes[2], bytes[3]);
    if size < 0 {
        None
    } else {
        Some(size as usize)
    }
}

/// What the overlay knows of the monitor: when data last came, the devices,
/// the sensors and the applications it can follow.
#[derive(Debug, PartialEq)]
pub struct HardwareMonitorData {
    pub last_poll_time: u64,
    pub hardwares: Vec<Hardware>,
    pub sensors: Vec<Sensor>,
    pub present_mon_apps: Vec<String>,
}

/// `HardwareMonitorData` with its contents taken as sequences.
pub struct HardwareMonitorDataView {
    pub last_poll_time: u64,
    pub hardwares: Seq<HardwareView>,
    pub sensors: Seq<SensorView>,
    pub present_mon_apps: Seq<Seq<char>>,
}

impl View for HardwareMonitorData {
    type V = HardwareMonitorDataView;

    open spec fn view(&self) -> HardwareMonitorDataView {
        HardwareMonitorDataView {
            last_poll_time: self.last_poll_time,
            hardwares: hardware_views(self.hardwares@),
            sensors: sensor_views(self.sensors@),
            present_mon_apps: string_views(self.present_mon_apps@),
        }
    }
}

/// What the connection loop does after a message.
#[derive(Debug, Clone, Copy, PartialEq, Eq)]
pub enum MessageOutcome {
    /// The state changed: send it on.
    Emit,
    /// Nothing changed: read the next frame.
    Ignore,
    /// The payload is malformed: the reader gives up on the connection.
    Abort,
}

/// The state after one message, and what the loop does next: a data payload
/// that decodes replaces the devices and sensors and stamps the time; an
/// application list that decodes replaces the list; a malformed payload of
/// either kind stops the reader; anything else changes nothing.
pub open spec fn spec_apply_message(
    state: HardwareMonitorDataView,
    command: i16,
    payload: Seq<u8>,
    now_ms: u64,
) -> (HardwareMonitorDataView, MessageOutcome) {
    if command == COMMAND_DATA {
        match spec_decode_hardware_data(payload) {
            Decoded::Complete((hardwares, sensors)) => (
                HardwareMonitorDataView {
                    last_poll_time: now_ms,
                    hardwares,
                    sensors,
                    present_mon_apps: state.present_mon_apps,
                },
                MessageOutcome::Emit,
            ),
            Decoded::Truncated => (state, MessageOutcome::Ignore),
            Decoded::Malformed => (state, MessageOutcome::Abort),
        }
    } else if command == COMMAND_PRESENT_MON_APPS {
        match spec_decode_present_mon_apps(payload) {
            Decoded::Complete(apps) => (
                HardwareMonitorDataView {
                    last_poll_time: state.last_poll_time,
                    hardwares: state.hardwares,
                    sensors: state.sensors,
                    present_mon_apps: apps,
                },
                MessageOutcome::Emit,
            ),
            Decoded::Truncated => (state, MessageOutcome::Ignore),
            Decoded::Malformed => (state, MessageOutcome::Abort),
        }
    } else {
        (state, MessageOutcome::Ignore)
    }
}

impl HardwareMonitorData {
    /// The state of a fresh connection: no data yet.
    pub fn new() -> (d: Self)
        ensures
            d.last_poll_time == 0,
            d.hardwares@.len() == 0,
            d.sensors@.len() == 0,
            d.present_mon_apps@.len() == 0,
    {
        HardwareMonitorData {
            last_poll_time: 0,
            hardwares: Vec::new(),
            sensors: Vec::new(),
            present_mon_apps: Vec::new(),
        }
    }

    /// Applies one message from the monitor, received at `now_ms`, and says
    /// what the connection loop does next.
    pub fn apply_message(&mut self, command: i16, payload: &[u8], now_ms: u64) -> (outcome:
        MessageOutcome)
        ensures
            (final(self)@, outcome) == spec_apply_message(old(self)@, command, payload@, now_ms),
    {
        if command == COMMAND_DATA {
            match decode_hardware_data(payload) {
                Decoded::Complete(parsed) => {
                    self.last_poll_time = now_ms;
                    self.hardwares = parsed.hardwares;
                    self.sensors = parsed.sensors;
                    MessageOutcome::Emit
                },
                Decoded::Truncated => MessageOutcome::Ignore,
                Decoded::Malformed => MessageOutcome::Abort,
            }
        } else if command == COMMAND_PRESENT_MON_APPS {
            match decode_present_mon_apps(payload) {
                Decoded::Complete(apps) => {
                    self.present_mon_apps = apps;
                    MessageOutcome::Emit
                },
                Decoded::Truncated => MessageOutcome::Ignore,
                Decoded::Malformed => MessageOutcome::Abort,
            }
        } else {
            MessageOutcome::Ignore
        }
    }
}

/// A polling-rate packet reads back, two `i16`s at a time, as the
/// polling-rate command and then the interval.
pub proof fn lemma_polling_rate_packet_decodes(interval_ms: i16)
    ensures
        polling_rate_packet(interval_ms).len() == 4,
        spec_read_i16(polling_rate_packet(interval_ms), 0) == Some((COMMAND_POLLING_RATE, 2int)),
        spec_read_i16(polling_rate_packet(interval_ms), 2) == Some((interval_ms, 4int)),
{
    lemma_i16_roundtrip(COMMAND_POLLING_RATE);
    lemma_i16_roundtrip(interval_ms);
}

/// A refresh packet reads back as the refresh command alone.
pub proof fn lemma_refresh_apps_packet_decodes()
    ensures
        refresh_apps_packet().len() == 2,
        spec_read_i16(refresh_apps_packet(), 0) == Some((COMMAND_REFRESH_APPS, 2int)),
{
    lemma_i16_roundtrip(COMMAND_REFRESH_APPS);
}

/// An application-selection packet reads back as the selection command, the
/// name's length (exact when it fits an `i16`) and the name's bytes.
pub proof fn lemma_app_selection_packet_decodes(name: Seq<u8>)
    ensures
        app_selection_packet(name).len() == name.len() + 4,
        spec_read_i16(app_selection_packet(name), 0) == Some((COMMAND_SELECT_APP, 2int)),
        spec_read_i16(app_selection_packet(name), 2) == Some(
            (wrap_i16(name.len() as int) as i16, 4int),
        ),
        name.len() < 0x8000 ==> spec_read_i16(app_selection_packet(name), 2) == Some(
            (name.len() as i16, 4int),
        ),
        app_selection_packet(name).subrange(4, app_selection_packet(name).len() as int) == name,
{
    let p = app_selection_packet(name);
    let l = wrap_i16(name.len() as int) as i16;
    lemma_i16_roundtrip(COMMAND_SELECT_APP);
    lemma_i16_roundtrip(l);
    assert(p[2] == i16_le_bytes(l)[0]);
    assert(p[3] == i16_le_bytes(l)[1]);
    assert(p.subrange(4, p.len() as int) =~= name);
}

proof fn lemma_hardware_list_len(d: Seq<u8>, off: int, count: nat)
    ensures
        spec_hardware_list(d, off, count) matches Decoded::Complete((hs, _)) ==> hs.len() == count,
    decreases count,
{
    if count > 0 {
        if let Decoded::Complete((h, next)) = spec_hardware_at(d, off) {
            lemma_hardware_list_len(d, next, (count - 1) as nat);
        }
    }
}

proof fn lemma_sensor_list_len(d: Seq<u8>, off: int, count: nat)
    ensures
        spec_sensor_list(d, off, count) matches Decoded::Complete((ss, _)) ==> ss.len() == count,
    decreases count,
{
    if count > 0 {
        if let Decoded::Complete((s, next)) = spec_sensor_at(d, off) {
            lemma_sensor_list_len(d, next, (count - 1) as nat);
        }
    }
}

/// A data payload that decodes holds exactly as many devices and sensors as
/// its two counts announce; one that announces a negative count is
/// malformed.
pub proof fn lemma_hardware_data_counts(payload: Seq<u8>)
    ensures
        spec_decode_hardware_data(payload) matches Decoded::Complete((hs, ss)) ==> {
            &&& hs.len() == le_i32(payload[0], payload[1], payload[2], payload[3])
            &&& ss.len() == le_i32(payload[4], payload[5], payload[6], payload[7])
        },
        payload.len() >= 8 && le_i32(payload[0], payload[1], payload[2], payload[3]) < 0
            ==> spec_decode_hardware_data(payload) is Malformed,
{
    if let Some((hw_count, o1)) = spec_read_i32(payload, 0) {
        if let Some((sensor_count, o2)) = spec_read_i32(payload, o1) {
            if hw_count >= 0 {
                lemma_hardware_list_len(payload, o2, hw_count as nat);
                if let Decoded::Complete((hs, o3)) = spec_hardware_list(
                    payload,
                    o2,
                    hw_count as nat,
                ) {
                    if sensor_count >= 0 {
                        lemma_sensor_list_len(payload, o3, sensor_count as nat);
                    }
                }
            }
        }
    }
}

proof fn lemma_app_list_entries(d: Seq<u8>, off: int, count: nat)
    ensures
        spec_app_list(d, off, count) matches Some(apps) ==> {
            &&& apps.len() <= count
            &&& forall|k: int|
                0 <= k < apps.len() ==> #[trigger] apps[k].len() > 0 && trim_white_space(apps[k])
                    == apps[k]
        },
    decreases count,
{
    if count > 0 {
        if let Some((raw, next)) = spec_read_string(d, off, NAME_SIZE as int) {
            lemma_app_list_entries(d, next, (count - 1) as nat);
            lemma_trim_by_trimmed(trim_nul(raw), strip_pred(false));
            if let Some(rest) = spec_app_list(d, next, (count - 1) as nat) {
                let e = app_entry(raw);
                if e.len() > 0 {
                    let apps = seq![e] + rest;
                    assert forall|k: int| 0 <= k < apps.len() implies #[trigger] apps[k].len() > 0
                        && trim_white_space(apps[k]) == apps[k] by {
                        if k > 0 {
                            assert(apps[k] == rest[k - 1]);
                        }
                    }
                }
            }
        }
    }
}

/// An application list that decodes starts with "Auto", holds at most one
/// name per announced slot besides it, and every other name is non-empty
/// with no white space at either end; a count of -1 gives "Auto" alone, and
/// a count below -1 is malformed.
pub proof fn lemma_present_mon_apps_shape(payload: Seq<u8>)
    ensures
        spec_decode_present_mon_apps(payload) matches Decoded::Complete(apps) ==> {
            &&& apps.len() >= 1
            &&& apps[0] == "Auto"@
            &&& le_i16(payload[0], payload[1]) >= 0 ==> apps.len() <= 1 + le_i16(
                payload[0],
                payload[1],
            )
            &&& le_i16(payload[0], payload[1]) == -1 ==> apps == seq!["Auto"@]
            &&& forall|k: int|
                1 <= k < apps.len() ==> #[trigger] apps[k].len() > 0 && trim_white_space(apps[k])
                    == apps[k]
        },
        payload.len() >= 2 && le_i16(payload[0], payload[1]) < -1
            ==> spec_decode_present_mon_apps(payload) is Malformed,
{
    if let Some((count, o1)) = spec_read_i16(payload, 0) {
        if count >= -1 {
            lemma_app_list_entries(payload, o1, app_slots(count));
            if let Some(listed) = spec_app_list(payload, o1, app_slots(count)) {
                if count == -1 {
                    assert(seq!["Auto"@] + listed =~= seq!["Auto"@]);
                }
                let apps = seq!["Auto"@] + listed;
                assert forall|k: int| 1 <= k < apps.len() implies #[trigger] apps[k].len() > 0
                    && trim_white_space(apps[k]) == apps[k] by {
                    assert(apps[k] == listed[k - 1]);
                }
            }
        }
    }
}

/// Each message touches only its own part of the state: a data payload the
/// devices, sensors and time; an application list the list; a message that
/// is not sent on changes nothing.
pub proof fn lemma_apply_message_scope(
    state: HardwareMonitorDataView,
    command: i16,
    payload: Seq<u8>,
    now_ms: u64,
)
    ensures
        ({
            let (next, outcome) = spec_apply_message(state, command, payload, now_ms);
            &&& outcome != MessageOutcome::Emit ==> next == state
            &&& outcome != MessageOutcome::Ignore ==> command == COMMAND_DATA || command
                == COMMAND_PRESENT_MON_APPS
            &&& outcome == MessageOutcome::Emit && command == COMMAND_DATA ==> next.last_poll_time
                == now_ms
            &&& command == COMMAND_DATA ==> next.present_mon_apps == state.present_mon_apps
            &&& command != COMMAND_DATA ==> {
                &&& next.last_poll_time == state.last_poll_time
                &&& next.hardwares == state.hardwares
                &&& next.sensors == state.sensors
            }
        }),
{
}

/// A data message that decodes replaces the devices and sensors with
/// exactly those of its payload, as many as its two counts announce, and
/// stamps the time, whatever the state held before; an application list
/// that decodes replaces the list and keeps the rest. So two states given
/// the same message agree afterwards on what it replaced, and a message
/// applied twice leaves the state it leaves once.
pub proof fn lemma_apply_message_replaces(
    state: HardwareMonitorDataView,
    other: HardwareMonitorDataView,
    command: i16,
    payload: Seq<u8>,
    now_ms: u64,
)
    ensures
        ({
            let (next, outcome) = spec_apply_message(state, command, payload, now_ms);
            let (next_other, _) = spec_apply_message(other, command, payload, now_ms);
            let (again, again_outcome) = spec_apply_message(next, command, payload, now_ms);
            &&& command == COMMAND_DATA ==> (spec_decode_hardware_data(payload) matches Decoded::Complete(
                (hs, ss),
            ) ==> {
                &&& outcome == MessageOutcome::Emit
                &&& next.hardwares == hs
                &&& next.sensors == ss
                &&& next.last_poll_time == now_ms
            })
            &&& command == COMMAND_DATA && outcome == MessageOutcome::Emit ==> {
                &&& next.hardwares.len() == le_i32(payload[0], payload[1], payload[2], payload[3])
                &&& next.sensors.len() == le_i32(payload[4], payload[5], payload[6], payload[7])
                &&& next.hardwares == next_other.hardwares
                &&& next.sensors == next_other.sensors
            }
            &&& command == COMMAND_PRESENT_MON_APPS ==> (spec_decode_present_mon_apps(payload) matches Decoded::Complete(
                apps,
            ) ==> {
                &&& outcome == MessageOutcome::Emit
                &&& next.present_mon_apps == apps
                &&& next.present_mon_apps == next_other.present_mon_apps
            })
            &&& again == next
            &&& again_outcome == outcome
        }),
{
    lemma_hardware_data_counts(payload);
}

/// Reads that stay within `d` read the same from `d` followed by more bytes.
proof fn lemma_reads_extend(d: Seq<u8>, e: Seq<u8>, off: int, len: int)
    ensures
        spec_read_i16(d, off) is Some ==> spec_read_i16(d + e, off) == spec_read_i16(d, off),
        spec_read_i32(d, off) is Some ==> spec_read_i32(d + e, off) == spec_read_i32(d, off),
        spec_read_f32_bits(d, off) is Some ==> spec_read_f32_bits(d + e, off)
            == spec_read_f32_bits(d, off),
        spec_read_string(d, off, len) is Some ==> spec_read_string(d + e, off, len)
            == spec_read_string(d, off, len),
{
    if 0 <= off && 0 <= len && off + len <= d.len() {
        assert((d + e).subrange(off, off + len) =~= d.subrange(off, off + len));
    }
    if 0 <= off && off + 4 <= d.len() {
        assert((d + e)[off + 3] == d[off + 3]);
    }
}

proof fn lemma_hardware_at_extend(d: Seq<u8>, e: Seq<u8>, off: int)
    ensures
        !(spec_hardware_at(d, off) is Truncated) ==> spec_hardware_at(d + e, off)
            == spec_hardware_at(d, off),
{
    lemma_reads_extend(d, e, off, 0);
    if let Some((name_len, o1)) = spec_read_i16(d, off) {
        lemma_reads_extend(d, e, o1, 0);
        if let Some((id_len, o2)) = spec_read_i16(d, o1) {
            lemma_reads_extend(d, e, o2, name_len as int);
            if let Some((name, o3)) = spec_read_string(d, o2, name_len as int) {
                lemma_reads_extend(d, e, o3, id_len as int);
                if let Some((identifier, o4)) = spec_read_string(d, o3, id_len as int) {
                    lemma_reads_extend(d, e, o4, 0);
                }
            }
        }
    }
}

proof fn lemma_sensor_at_extend(d: Seq<u8>, e: Seq<u8>, off: int)
    ensures
        !(spec_sensor_at(d, off) is Truncated) ==> spec_sensor_at(d + e, off) == spec_sensor_at(
            d,
            off,
        ),
{
    lemma_reads_extend(d, e, off, 0);
    if let Some((name_len, o1)) = spec_read_i16(d, off) {
        lemma_reads_extend(d, e, o1, 0);
        if let Some((id_len, o2)) = spec_read_i16(d, o1) {
            lemma_reads_extend(d, e, o2, 0);
            if let Some((hw_id_len, o3)) = spec_read_i16(d, o2) {
                lemma_reads_extend(d, e, o3, name_len as int);
                if let Some((name, o4)) = spec_read_string(d, o3, name_len as int) {
                    lemma_reads_extend(d, e, o4, id_len as int);
                    if let Some((identifier, o5)) = spec_read_string(d, o4, id_len as int) {
                        lemma_reads_extend(d, e, o5, hw_id_len as int);
                        if let Some((hw, o6)) = spec_read_string(d, o5, hw_id_len as int) {
                            lemma_reads_extend(d, e, o6, 0);
                            if let Some((t, o7)) = spec_read_i32(d, o6) {
                                lemma_reads_extend(d, e, o7, 0);
                            }
                        }
                    }
                }
            }
        }
    }
}

proof fn lemma_hardware_list_extend(d: Seq<u8>, e: Seq<u8>, off: int, count: nat)
    ensures
        !(spec_hardware_list(d, off, count) is Truncated) ==> spec_hardware_list(d + e, off, count)
            == spec_hardware_list(d, off, count),
    decreases count,
{
    if count > 0 {
        lemma_hardware_at_extend(d, e, off);
        if let Decoded::Complete((h, next)) = spec_hardware_at(d, off) {
            lemma_hardware_list_extend(d, e, next, (count - 1) as nat);
        }
    }
}

proof fn lemma_sensor_list_extend(d: Seq<u8>, e: Seq<u8>, off: int, count: nat)
    ensures
        !(spec_sensor_list(d, off, count) is Truncated) ==> spec_sensor_list(d + e, off, count)
            == spec_sensor_list(d, off, count),
    decreases count,
{
    if count > 0 {
        lemma_sensor_at_extend(d, e, off);
        if let Decoded::Complete((s, next)) = spec_sensor_at(d, off) {
            lemma_sensor_list_extend(d, e, next, (count - 1) as nat);
        }
    }
}

/// Bytes after the last record of a data payload change nothing: a payload
/// that decodes (or is malformed) decodes the same with any bytes appended.
pub proof fn lemma_hardware_data_ignores_trailing_bytes(payload: Seq<u8>, extra: Seq<u8>)
    ensures
        !(spec_decode_hardware_data(payload) is Truncated) ==> spec_decode_hardware_data(
            payload + extra,
        ) == spec_decode_hardware_data(payload),
{
    let d = payload;
    lemma_reads_extend(d, extra, 0, 0);
    if let Some((hw_count, o1)) = spec_read_i32(d, 0) {
        lemma_reads_extend(d, extra, o1, 0);
        if let Some((sensor_count, o2)) = spec_read_i32(d, o1) {
            if hw_count >= 0 {
                lemma_hardware_list_extend(d, extra, o2, hw_count as nat);
                if let Decoded::Complete((hs, o3)) = spec_hardware_list(d, o2, hw_count as nat) {
                    if sensor_count >= 0 {
                        lemma_sensor_list_extend(d, extra, o3, sensor_count as nat);
                    }
                }
            }
        }
    }
}

proof fn lemma_app_list_extend(d: Seq<u8>, e: Seq<u8>, off: int, count: nat)
    ensures
        spec_app_list(d, off, count) is Some ==> spec_app_list(d + e, off, count) == spec_app_list(
            d,
            off,
            count,
        ),
    decreases count,
{
    if count > 0 {
        lemma_reads_extend(d, e, off, NAME_SIZE as int);
        if let Some((raw, next)) = spec_read_string(d, off, NAME_SIZE as int) {
            lemma_app_list_extend(d, e, next, (count - 1) as nat);
        }
    }
}

/// Bytes after the last name slot of an application list change nothing.
pub proof fn lemma_present_mon_apps_ignores_trailing_bytes(payload: Seq<u8>, extra: Seq<u8>)
    ensures
        !(spec_decode_present_mon_apps(payload) is Truncated) ==> spec_decode_present_mon_apps(
            payload + extra,
        ) == spec_decode_present_mon_apps(payload),
{
    lemma_reads_extend(payload, extra, 0, 0);
    if let Some((count, o1)) = spec_read_i16(payload, 0) {
        if count >= -1 {
            lemma_app_list_extend(payload, extra, o1, app_slots(count));
        }
    }
}

} // verus!
