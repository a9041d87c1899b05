//! The HWiNFO sensor shared memory: a header, then sections of sensor
//! elements and reading elements at offsets the header gives. All integers
//! are little-endian; the structures are packed.

use vstd::prelude::*;
use vstd::string::*;

use crate::text::{read_utf8_string, utf8_field};
use crate::wire::{copy_array, read_u32_at, read_u64_at, u32_at, u64_at};

verus! {

/// "HWiN", the signature of a live HWiNFO shared memory.
pub const HWINFO_SIGNATURE: u32 = 0x4857694E;

/// The size of the header (`SensorSharedMem`).
pub const SHARED_MEM_SIZE: usize = 44;

/// The size of a sensor element (`SensorElement`).
pub const SENSOR_ELEMENT_SIZE: usize = 272;

/// The size of a reading element (`SensorReadingElement`).
pub const READING_ELEMENT_SIZE: usize = 316;

/// The header of the shared memory.
#[derive(Debug, Clone, Copy, PartialEq)]
pub struct SensorSharedMem {
    pub dw_signature: u32,
    pub dw_version: u32,
    pub dw_revision: u32,
    pub poll_time: u64,
    pub dw_offset_of_sensor_section: u32,
    pub dw_size_of_sensor_element: u32,
    pub dw_num_sensor_elements: u32,
    pub dw_offset_of_reading_section: u32,
    pub dw_size_of_reading_element: u32,
    pub dw_num_reading_elements: u32,
}

/// The header as the first bytes of `mem` encode it.
pub open spec fn spec_shared_mem(mem: Seq<u8>) -> SensorSharedMem {
    SensorSharedMem {
        dw_signature: u32_at(mem, 0) as u32,
        dw_version: u32_at(mem, 4) as u32,
        dw_revision: u32_at(mem, 8) as u32,
        poll_time: u64_at(mem, 12) as u64,
        dw_offset_of_sensor_section: u32_at(mem, 20) as u32,
        dw_size_of_sensor_element: u32_at(mem, 24) as u32,
        dw_num_sensor_elements: u32_at(mem, 28) as u32,
        dw_offset_of_reading_section: u32_at(mem, 32) as u32,
        dw_size_of_reading_element: u32_at(mem, 36) as u32,
        dw_num_reading_elements: u32_at(mem, 40) as u32,
    }
}

impl SensorSharedMem {
    /// Reads the header at the start of `mem`.
    pub fn read_from(mem: &[u8]) -> (h: Self)
        requires
            SHARED_MEM_SIZE <= mem@.len(),
        ensures
            h == spec_shared_mem(mem@),
    {
        SensorSharedMem {
            dw_signature: read_u32_at(mem, 0),
            dw_version: read_u32_at(mem, 4),
            dw_revision: read_u32_at(mem, 8),
            poll_time: read_u64_at(mem, 12),
            dw_offset_of_sensor_section: read_u32_at(mem, 20),
            dw_size_of_sensor_element: read_u32_at(mem, 24),
            dw_num_sensor_elements: read_u32_at(mem, 28),
            dw_offset_of_reading_section: read_u32_at(mem, 32),
            dw_size_of_reading_element: read_u32_at(mem, 36),
            dw_num_reading_elements: read_u32_at(mem, 40),
        }
    }
}

/// A sensor element: identifiers and two NUL-padded names.
#[derive(Debug, Clone, Copy, PartialEq)]
pub struct SensorElement {
    pub dw_sensor_id: u64,
    pub dw_sensor_inst: u64,
    pub sz_sensor_name_orig: [u8; 128],
    pub sz_sensor_name_user: [u8; 128],
}

impl SensorElement {
    /// Reads the sensor element at `off` in `mem`.
    pub fn read_from(mem: &[u8], off: usize) -> (e: Self)
        requires
            off + SENSOR_ELEMENT_SIZE <= mem@.len(),
        ensures
            e.dw_sensor_id == u64_at(mem@, off as int),
            e.dw_sensor_inst == u64_at(mem@, off + 8),
            e.sz_sensor_name_orig@ == mem@.subrange(off + 16, off + 144),
            e.sz_sensor_name_user@ == mem@.subrange(off + 144, off + 272),
    {
        let _len = mem.len();
        SensorElement {
            dw_sensor_id: read_u64_at(mem, off),
            dw_sensor_inst: read_u64_at(mem, off + 8),
            sz_sensor_name_orig: copy_array::<128>(mem, off + 16),
            sz_sensor_name_user: copy_array::<128>(mem, off + 144),
        }
    }
}

/// A reading element. The four readings are `f64`s, kept as their bit
/// patterns (`f64::from_bits` gives the numbers).
#[derive(Debug, Clone, Copy, PartialEq)]
pub struct SensorReadingElement {
    pub reading_type: u32,
    pub dw_sensor_index: u32,
    pub dw_reading_id: u32,
    pub sz_label_orig: [u8; 128],
    pub sz_label_user: [u8; 128],
    pub sz_unit: [u8; 16],
    pub value_bits: u64,
    pub value_min_bits: u64,
    pub value_max_bits: u64,
    pub value_avg_bits: u64,
}

impl SensorReadingElement {
    /// Reads the reading element at `off` in `mem`.
    pub fn read_from(mem: &[u8], off: usize) -> (e: Self)
        requires
            off + READING_ELEMENT_SIZE <= mem@.len(),
        ensures
            e.reading_type == u32_at(mem@, off as int),
            e.dw_sensor_index == u32_at(mem@, off + 4),
            e.dw_reading_id == u32_at(mem@, off + 8),
            e.sz_label_orig@ == mem@.subrange(off + 12, off + 140),
            e.sz_label_user@ == mem@.subrange(off + 140, off + 268),
            e.sz_unit@ == mem@.subrange(off + 268, off + 284),
            e.value_bits == u64_at(mem@, off + 284),
            e.value_min_bits == u64_at(mem@, off + 292),
            e.value_max_bits == u64_at(mem@, off + 300),
            e.value_avg_bits == u64_at(mem@, off + 308),
    {
        let _len = mem.len();
        SensorReadingElement {
            reading_type: read_u32_at(mem, off),
            dw_sensor_index: read_u32_at(mem, off + 4),
            dw_reading_id: read_u32_at(mem, off + 8),
            sz_label_orig: copy_array::<128>(mem, off + 12),
            sz_label_user: copy_array::<128>(mem, off + 140),
            sz_unit: copy_array::<16>(mem, off + 268),
            value_bits: read_u64_at(mem, off + 284),
            value_min_bits: read_u64_at(mem, off + 292),
            value_max_bits: read_u64_at(mem, off + 300),
            value_avg_bits: read_u64_at(mem, off + 308),
        }
    }
}

/// A sensor as the overlay shows it.
#[derive(Debug, PartialEq)]
pub struct HwInfoSensor {
    pub sensor_id: u64,
    pub sensor_inst: u64,
    pub name_orig: String,
    pub name_user: String,
}

/// An `HwInfoSensor` with its names taken as character sequences.
pub struct HwInfoSensorView {
    pub sensor_id: u64,
    pub sensor_inst: u64,
    pub name_orig: Seq<char>,
    pub name_user: Seq<char>,
}

impl View for HwInfoSensor {
    type V = HwInfoSensorView;

    open spec fn view(&self) -> HwInfoSensorView {
        HwInfoSensorView {
            sensor_id: self.sensor_id,
            sensor_inst: self.sensor_inst,
            name_orig: self.name_orig@,
            name_user: self.name_user@,
        }
    }
}

/// A reading as the overlay shows it. The values are the `f64` bit patterns
/// of the element; the overlay shows them as `f32`.
#[derive(Debug, PartialEq)]
pub struct HwInfoReading {
    pub reading_type: u32,
    pub sensor_index: u32,
    pub reading_id: u32,
    pub label_orig: String,
    pub label_user: String,
    pub unit: String,
    pub value_bits: u64,
    pub value_min_bits: u64,
    pub value_max_bits: u64,
    pub value_avg_bits: u64,
}

/// An `HwInfoReading` with its texts taken as character sequences.
pub struct HwInfoReadingView {
    pub reading_type: u32,
    pub sensor_index: u32,
    pub reading_id: u32,
    pub label_orig: Seq<char>,
    pub label_user: Seq<char>,
    pub unit: Seq<char>,
    pub value_bits: u64,
    pub value_min_bits: u64,
    pub value_max_bits: u64,
    pub value_avg_bits: u64,
}

impl View for HwInfoReading {
    type V = HwInfoReadingView;

    open spec fn view(&self) -> HwInfoReadingView {
        HwInfoReadingView {
            reading_type: self.reading_type,
            sensor_index: self.sensor_index,
            reading_id: self.reading_id,
            label_orig: self.label_orig@,
            label_user: self.label_user@,
            unit: self.unit@,
            value_bits: self.value_bits,
            value_min_bits: self.value_min_bits,
            value_max_bits: self.value_max_bits,
            value_avg_bits: self.value_avg_bits,
        }
    }
}

/// Everything read from the shared memory.
#[derive(Debug, PartialEq)]
pub struct HwInfoData {
    pub poll_time: u64,
    pub sensors: Vec<HwInfoSensor>,
    pub readings: Vec<HwInfoReading>,
}

/// `HwInfoData` with its lists taken as sequences of views.
pub struct HwInfoDataView {
    pub poll_time: u64,
    pub sensors: Seq<HwInfoSensorView>,
    pub readings: Seq<HwInfoReadingView>,
}

impl View for HwInfoData {
    type V = HwInfoDataView;

    open spec fn view(&self) -> HwInfoDataView {
        HwInfoDataView {
            poll_time: self.poll_time,
            sensors: self.sensors@.map_values(|s: HwInfoSensor| s@),
            readings: self.readings@.map_values(|r: HwInfoReading| r@),
        }
    }
}

/// The sensor that the element at `off` describes.
pub open spec fn spec_hwinfo_sensor(mem: Seq<u8>, off: int) -> HwInfoSensorView {
    HwInfoSensorView {
        sensor_id: u64_at(mem, off) as u64,
        sensor_inst: u64_at(mem, off + 8) as u64,
        name_orig: utf8_field(mem.subrange(off + 16, off + 144)),
        name_user: utf8_field(mem.subrange(off + 144, off + 272)),
    }
}

/// The reading that the element at `off` describes.
pub open spec fn spec_hwinfo_reading(mem: Seq<u8>, off: int) -> HwInfoReadingView {
    HwInfoReadingView {
        reading_type: u32_at(mem, off) as u32,
        sensor_index: u32_at(mem, off + 4) as u32,
        reading_id: u32_at(mem, off + 8) as u32,
        label_orig: utf8_field(mem.subrange(off + 12, off + 140)),
        label_user: utf8_field(mem.subrange(off + 140, off + 268)),
        unit: utf8_field(mem.subrange(off + 268, off + 284)),
        value_bits: u64_at(mem, off + 284) as u64,
        value_min_bits: u64_at(mem, off + 292) as u64,
        value_max_bits: u64_at(mem, off + 300) as u64,
        value_avg_bits: u64_at(mem, off + 308) as u64,
    }
}

/// The offset of element `i` of a section.
pub open spec fn element_offset(section: u32, size: u32, i: int) -> int {
    section + size * i
}

/// Every one of the `count` elements of a section lies within `len` bytes.
pub open spec fn elements_fit(len: int, section: u32, size: u32, count: u32, elem: int) -> bool {
    forall|i: int| 0 <= i < count ==> #[trigger] element_offset(section, size, i) + elem <= len
}

/// The error for a memory too short for what its header announces.
pub open spec fn truncated_message() -> Seq<char> {
    "HWiNFO shared memory is truncated"@
}

/// The error for a memory that HWiNFO has not written.
pub open spec fn bad_signature_message() -> Seq<char> {
    "Invalid HWiNFO signature"@
}

/// What reading `mem` gives: an error for a short header, a wrong signature
/// or an element beyond the end; else the poll time, the sensors and the
/// readings, in section order.
pub open spec fn spec_read_hwinfo(mem: Seq<u8>) -> Result<HwInfoDataView, Seq<char>> {
    if mem.len() < SHARED_MEM_SIZE {
        Err(truncated_message())
    } else {
        let h = spec_shared_mem(mem);
        if h.dw_signature != HWINFO_SIGNATURE {
            Err(bad_signature_message())
        } else if !elements_fit(
            mem.len() as int,
            h.dw_offset_of_sensor_section,
            h.dw_size_of_sensor_element,
            h.dw_num_sensor_elements,
            SENSOR_ELEMENT_SIZE as int,
        ) || !elements_fit(
            mem.len() as int,
            h.dw_offset_of_reading_section,
            h.dw_size_of_reading_element,
            h.dw_num_reading_elements,
            READING_ELEMENT_SIZE as int,
        ) {
            Err(truncated_message())
        } else {
            Ok(
                HwInfoDataView {
                    poll_time: h.poll_time,
                    sensors: Seq::new(
                        h.dw_num_sensor_elements as nat,
                        |i: int|
                            spec_hwinfo_sensor(
                                mem,
                                element_offset(
                                    h.dw_offset_of_sensor_section,
                                    h.dw_size_of_sensor_element,
                                    i,
                                ),
                            ),
                    ),
                    readings: Seq::new(
                        h.dw_num_reading_elements as nat,
                        |i: int|
                            spec_hwinfo_reading(
                                mem,
                                element_offset(
                                    h.dw_offset_of_reading_section,
                                    h.dw_size_of_reading_element,
                                    i,
                                ),
                            ),
                    ),
                },
            )
        }
    }
}

/// The offset of element `i`, which fits in a `u64`.
fn element_offset_u64(section: u32, size: u32, i: u32) -> (off: u64)
    ensures
        off == element_offset(section, size, i as int),
        off <= 0xFFFF_FFFF_0000_0000u64,
{
    assert((size as int) * (i as int) <= 0xFFFF_FFFE_0000_0001int) by (nonlinear_arith)
        requires
            0 <= size <= 0xFFFF_FFFF,
            0 <= i <= 0xFFFF_FFFF,
    ;
    section as u64 + (size as u64) * (i as u64)
}

fn error_message(truncated: bool) -> (e: String)
    ensures
        truncated ==> e@ == truncated_message(),
        !truncated ==> e@ == bad_signature_message(),
{
    if truncated {
        String::from_str("HWiNFO shared memory is truncated")
    } else {
        String::from_str("Invalid HWiNFO signature")
    }
}

/// Reads the sensors and readings out of a view of the shared memory.
pub fn parse_hwinfo_data(mem: &[u8]) -> (r: Result<HwInfoData, String>)
    ensures
        match spec_read_hwinfo(mem@) {
            Ok(v) => r matches Ok(d) && d@ == v,
            Err(m) => r matches Err(e) && e@ == m,
        },
{
    let len = mem.len();
    if len < SHARED_MEM_SIZE {
        return Err(error_message(true));
    }
    let h = SensorSharedMem::read_from(mem);
    if h.dw_signature != HWINFO_SIGNATURE {
        return Err(error_message(false));
    }
    let ghost m = mem@;
    let mut sensors: Vec<HwInfoSensor> = Vec::new();
    let mut i: u32 = 0;
    while i < h.dw_num_sensor_elements
        invariant
            m == mem@,
            len == m.len(),
            h == spec_shared_mem(m),
            h.dw_signature == HWINFO_SIGNATURE,
            len >= SHARED_MEM_SIZE,
            0 <= i <= h.dw_num_sensor_elements,
            sensors@.len() == i,
            forall|j: int|
                0 <= j < i ==> element_offset(
                    h.dw_offset_of_sensor_section,
                    h.dw_size_of_sensor_element,
                    j,
                ) + SENSOR_ELEMENT_SIZE <= len,
            forall|j: int|
                0 <= j < i ==> (#[trigger] sensors@[j])@ == spec_hwinfo_sensor(
                    m,
                    element_offset(h.dw_offset_of_sensor_section, h.dw_size_of_sensor_element, j),
                ),
        decreases h.dw_num_sensor_elements - i,
    {
        let off = element_offset_u64(
            h.dw_offset_of_sensor_section,
            h.dw_size_of_sensor_element,
            i,
        );
        if off + SENSOR_ELEMENT_SIZE as u64 > len as u64 {
            proof {
                assert(!elements_fit(
                    len as int,
                    h.dw_offset_of_sensor_section,
                    h.dw_size_of_sensor_element,
                    h.dw_num_sensor_elements,
                    SENSOR_ELEMENT_SIZE as int,
                ));
            }
            return Err(error_message(true));
        }
        let e = SensorElement::read_from(mem, off as usize);
        let sensor = HwInfoSensor {
            sensor_id: e.dw_sensor_id,
            sensor_inst: e.dw_sensor_inst,
            name_orig: read_utf8_string(e.sz_sensor_name_orig.as_slice()),
            name_user: read_utf8_string(e.sz_sensor_name_user.as_slice()),
        };
        sensors.push(sensor);
        i = i + 1;
    }
    let mut readings: Vec<HwInfoReading> = Vec::new();
    let mut i: u32 = 0;
    while i < h.dw_num_reading_elements
        invariant
            m == mem@,
            len == m.len(),
            h == spec_shared_mem(m),
            h.dw_signature == HWINFO_SIGNATURE,
            len >= SHARED_MEM_SIZE,
            0 <= i <= h.dw_num_reading_elements,
            readings@.len() == i,
            forall|j: int|
                0 <= j < i ==> element_offset(
                    h.dw_offset_of_reading_section,
                    h.dw_size_of_reading_element,
                    j,
                ) + READING_ELEMENT_SIZE <= len,
            forall|j: int|
                0 <= j < i ==> (#[trigger] readings@[j])@ == spec_hwinfo_reading(
                    m,
                    element_offset(
                        h.dw_offset_of_reading_section,
                        h.dw_size_of_reading_element,
                        j,
                    ),
                ),
        decreases h.dw_num_reading_elements - i,
    {
        let off = element_offset_u64(
            h.dw_offset_of_reading_section,
            h.dw_size_of_reading_element,
            i,
        );
        if off + READING_ELEMENT_SIZE as u64 > len as u64 {
            proof {
                assert(!elements_fit(
                    len as int,
                    h.dw_offset_of_reading_section,
                    h.dw_size_of_reading_element,
                    h.dw_num_reading_elements,
                    READING_ELEMENT_SIZE as int,
                ));
            }
            return Err(error_message(true));
        }
        let e = SensorReadingElement::read_from(mem, off as usize);
        let reading = HwInfoReading {
            reading_type: e.reading_type,
            sensor_index: e.dw_sensor_index,
            reading_id: e.dw_reading_id,
            label_orig: read_utf8_string(e.sz_label_orig.as_slice()),
            label_user: read_utf8_string(e.sz_label_user.as_slice()),
            unit: read_utf8_string(e.sz_unit.as_slice()),
            value_bits: e.value_bits,
            value_min_bits: e.value_min_bits,
            value_max_bits: e.value_max_bits,
            value_avg_bits: e.value_avg_bits,
        };
        readings.push(reading);
        i = i + 1;
    }
    let data = HwInfoData { poll_time: h.poll_time, sensors, readings };
    proof {
        let v = spec_read_hwinfo(m)->Ok_0;
        assert(data@.sensors =~= v.sensors);
        assert(data@.readings =~= v.readings);
    }
    Ok(data)
}

/// A successful read holds as many sensors and readings as the header
/// announces, and the header's poll time.
pub proof fn lemma_hwinfo_counts(mem: Seq<u8>)
    ensures
        spec_read_hwinfo(mem) matches Ok(d) ==> {
            &&& d.poll_time == spec_shared_mem(mem).poll_time
            &&& d.sensors.len() == spec_shared_mem(mem).dw_num_sensor_elements
            &&& d.readings.len() == spec_shared_mem(mem).dw_num_reading_elements
        },
{
}

/// Each reading of a successful read holds the fields of its reading element
/// where the layout puts them: element `i` starts at the reading-section
/// offset (header bytes 32..36) plus `i` times the element size (bytes
/// 36..40); its type, sensor index and id are the little-endian `u32`s at 0,
/// 4 and 8, its labels and unit the NUL-terminated texts at 12..140,
/// 140..268 and 268..284, and its current, minimum, maximum and average
/// values the little-endian `u64`s at 284, 292, 300 and 308.
pub proof fn lemma_hwinfo_reading_fields(mem: Seq<u8>, i: int)
    ensures
        spec_read_hwinfo(mem) matches Ok(d) ==> (0 <= i < d.readings.len() ==> {
            let o = u32_at(mem, 32) + u32_at(mem, 36) * i;
            let r = d.readings[i];
            &&& d.readings.len() == u32_at(mem, 40)
            &&& r.reading_type == u32_at(mem, o)
            &&& r.sensor_index == u32_at(mem, o + 4)
            &&& r.reading_id == u32_at(mem, o + 8)
            &&& r.label_orig == utf8_field(mem.subrange(o + 12, o + 140))
            &&& r.label_user == utf8_field(mem.subrange(o + 140, o + 268))
            &&& r.unit == utf8_field(mem.subrange(o + 268, o + 284))
            &&& r.value_bits == u64_at(mem, o + 284)
            &&& r.value_min_bits == u64_at(mem, o + 292)
            &&& r.value_max_bits == u64_at(mem, o + 300)
            &&& r.value_avg_bits == u64_at(mem, o + 308)
        }),
{
    if let Ok(d) = spec_read_hwinfo(mem) {
        if 0 <= i < d.readings.len() {
            let h = spec_shared_mem(mem);
            let o = element_offset(h.dw_offset_of_reading_section, h.dw_size_of_reading_element, i);
            assert(d.readings[i] == spec_hwinfo_reading(mem, o));
        }
    }
}

/// Each sensor of a successful read holds the fields of its sensor element:
/// element `i` starts at the sensor-section offset (header bytes 20..24)
/// plus `i` times the element size (bytes 24..28); its id and instance are
/// the little-endian `u64`s at 0 and 8, its names the NUL-terminated texts
/// at 16..144 and 144..272. The poll time is the `u64` at header byte 12.
pub proof fn lemma_hwinfo_sensor_fields(mem: Seq<u8>, i: int)
    ensures
        spec_read_hwinfo(mem) matches Ok(d) ==> d.poll_time == u64_at(mem, 12),
        spec_read_hwinfo(mem) matches Ok(d) ==> (0 <= i < d.sensors.len() ==> {
            let o = u32_at(mem, 20) + u32_at(mem, 24) * i;
            let s = d.sensors[i];
            &&& d.sensors.len() == u32_at(mem, 28)
            &&& s.sensor_id == u64_at(mem, o)
            &&& s.sensor_inst == u64_at(mem, o + 8)
            &&& s.name_orig == utf8_field(mem.subrange(o + 16, o + 144))
            &&& s.name_user == utf8_field(mem.subrange(o + 144, o + 272))
        }),
{
    if let Ok(d) = spec_read_hwinfo(mem) {
        if 0 <= i < d.sensors.len() {
            let h = spec_shared_mem(mem);
            let o = element_offset(h.dw_offset_of_sensor_section, h.dw_size_of_sensor_element, i);
            assert(d.sensors[i] == spec_hwinfo_sensor(mem, o));
        }
    }
}

} // verus!
