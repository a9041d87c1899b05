//! The MSI Afterburner hardware-monitoring shared memory ("MAHM"): a header,
//! the monitoring entries one after another, then the GPU entries. All
//! integers are little-endian; the structures are packed.

use vstd::prelude::*;
use vstd::string::*;

use crate::text::{read_utf8_string, utf8_field};
use crate::wire::{copy_array, le_i32, read_u32_at, u32_at};

verus! {

/// "MAHM", the signature of a live shared memory.
pub const MAHM_SIGNATURE: u32 = 0x4D48414D;

/// The signature of a shared memory that Afterburner has marked dead; it is
/// read all the same.
pub const MAHM_DEAD_SIGNATURE: u32 = 0xDEAD;

/// The size of every string field.
pub const MAX_STRING_LENGTH: usize = 260;

/// The size of the header (`MahmHeader`).
pub const HEADER_SIZE: usize = 32;

/// The size of a monitoring entry (`MahmEntry`).
pub const ENTRY_SIZE: usize = 1324;

/// The size of a GPU entry (`MahmGpuEntry`).
pub const GPU_ENTRY_SIZE: usize = 1304;

/// The header of the shared memory.
#[derive(Debug, Clone, Copy, PartialEq)]
pub struct MahmHeader {
    pub dw_signature: u32,
    pub dw_version: u32,
    pub dw_header_size: u32,
    pub dw_num_entries: u32,
    pub dw_entry_size: u32,
    pub last_check: u32,
    pub dw_num_gpu_entries: u32,
    pub dw_gpu_entry_size: u32,
}

/// The header as the first bytes of `mem` encode it.
pub open spec fn spec_mahm_header(mem: Seq<u8>) -> MahmHeader {
    MahmHeader {
        dw_signature: u32_at(mem, 0) as u32,
        dw_version: u32_at(mem, 4) as u32,
        dw_header_size: u32_at(mem, 8) as u32,
        dw_num_entries: u32_at(mem, 12) as u32,
        dw_entry_size: u32_at(mem, 16) as u32,
        last_check: u32_at(mem, 20) as u32,
        dw_num_gpu_entries: u32_at(mem, 24) as u32,
        dw_gpu_entry_size: u32_at(mem, 28) as u32,
    }
}

impl MahmHeader {
    /// Reads the header at the start of `mem`.
    pub fn read_from(mem: &[u8]) -> (h: Self)
        requires
            HEADER_SIZE <= mem@.len(),
        ensures
            h == spec_mahm_header(mem@),
    {
        MahmHeader {
            dw_signature: read_u32_at(mem, 0),
            dw_version: read_u32_at(mem, 4),
            dw_header_size: read_u32_at(mem, 8),
            dw_num_entries: read_u32_at(mem, 12),
            dw_entry_size: read_u32_at(mem, 16),
            last_check: read_u32_at(mem, 20),
            dw_num_gpu_entries: read_u32_at(mem, 24),
            dw_gpu_entry_size: read_u32_at(mem, 28),
        }
    }
}

/// A monitoring entry. The data and its limits are `f32`s, kept as their bit
/// patterns (`f32::from_bits` gives the numbers).
#[derive(Debug, Clone, Copy, PartialEq)]
pub struct MahmEntry {
    pub sz_src_name: [u8; 260],
    pub sz_src_units: [u8; 260],
    pub sz_localised_src_name: [u8; 260],
    pub sz_localised_src_units: [u8; 260],
    pub sz_recommended_format: [u8; 260],
    pub data_bits: u32,
    pub min_limit_bits: u32,
    pub max_limit_bits: u32,
    pub dw_flags: u32,
    pub dw_gpu: u32,
    pub dw_src_id: u32,
}

impl MahmEntry {
    /// Reads the monitoring entry at `off` in `mem`.
    pub fn read_from(mem: &[u8], off: usize) -> (e: Self)
        requires
            off + ENTRY_SIZE <= mem@.len(),
        ensures
            e.sz_src_name@ == mem@.subrange(off as int, off + 260),
            e.sz_src_units@ == mem@.subrange(off + 260, off + 520),
            e.sz_localised_src_name@ == mem@.subrange(off + 520, off + 780),
            e.sz_localised_src_units@ == mem@.subrange(off + 780, off + 1040),
            e.sz_recommended_format@ == mem@.subrange(off + 1040, off + 1300),
            e.data_bits == u32_at(mem@, off + 1300),
            e.min_limit_bits == u32_at(mem@, off + 1304),
            e.max_limit_bits == u32_at(mem@, off + 1308),
            e.dw_flags == u32_at(mem@, off + 1312),
            e.dw_gpu == u32_at(mem@, off + 1316),
            e.dw_src_id == u32_at(mem@, off + 1320),
    {
        let _len = mem.len();
        MahmEntry {
            sz_src_name: copy_array::<260>(mem, off),
            sz_src_units: copy_array::<260>(mem, off + 260),
            sz_localised_src_name: copy_array::<260>(mem, off + 520),
            sz_localised_src_units: copy_array::<260>(mem, off + 780),
            sz_recommended_format: copy_array::<260>(mem, off + 1040),
            data_bits: read_u32_at(mem, off + 1300),
            min_limit_bits: read_u32_at(mem, off + 1304),
            max_limit_bits: read_u32_at(mem, off + 1308),
            dw_flags: read_u32_at(mem, off + 1312),
            dw_gpu: read_u32_at(mem, off + 1316),
            dw_src_id: read_u32_at(mem, off + 1320),
        }
    }
}

/// A GPU entry.
#[derive(Debug, Clone, Copy, PartialEq)]
pub struct MahmGpuEntry {
    pub sz_gpu_id: [u8; 260],
    pub sz_family: [u8; 260],
    pub sz_device: [u8; 260],
    pub sz_driver: [u8; 260],
    pub sz_bios: [u8; 260],
    pub dw_mem_amount: u32,
}

impl MahmGpuEntry {
    /// Reads the GPU entry at `off` in `mem`.
    pub fn read_from(mem: &[u8], off: usize) -> (e: Self)
        requires
            off + GPU_ENTRY_SIZE <= mem@.len(),
        ensures
            e.sz_gpu_id@ == mem@.subrange(off as int, off + 260),
            e.sz_family@ == mem@.subrange(off + 260, off + 520),
            e.sz_device@ == mem@.subrange(off + 520, off + 780),
            e.sz_driver@ == mem@.subrange(off + 780, off + 1040),
            e.sz_bios@ == mem@.subrange(off + 1040, off + 1300),
            e.dw_mem_amount == u32_at(mem@, off + 1300),
    {
        let _len = mem.len();
        MahmGpuEntry {
            sz_gpu_id: copy_array::<260>(mem, off),
            sz_family: copy_array::<260>(mem, off + 260),
            sz_device: copy_array::<260>(mem, off + 520),
            sz_driver: copy_array::<260>(mem, off + 780),
            sz_bios: copy_array::<260>(mem, off + 1040),
            dw_mem_amount: read_u32_at(mem, off + 1300),
        }
    }
}

/// A monitoring entry as the overlay shows it; `data_bits` and the limits
/// are `f32` bit patterns.
#[derive(Debug, PartialEq)]
pub struct MahmEntryData {
    pub src_name: String,
    pub src_units: String,
    pub localised_src_name: String,
    pub localised_src_units: String,
    pub recommended_format: String,
    pub data_bits: u32,
    pub min_limit_bits: u32,
    pub max_limit_bits: u32,
    pub flags: u32,
    pub gpu: u32,
    pub src_id: i32,
}

/// A `MahmEntryData` with its texts taken as character sequences.
pub struct MahmEntryDataView {
    pub src_name: Seq<char>,
    pub src_units: Seq<char>,
    pub localised_src_name: Seq<char>,
    pub localised_src_units: Seq<char>,
    pub recommended_format: Seq<char>,
    pub data_bits: u32,
    pub min_limit_bits: u32,
    pub max_limit_bits: u32,
    pub flags: u32,
    pub gpu: u32,
    pub src_id: i32,
}

impl View for MahmEntryData {
    type V = MahmEntryDataView;

    open spec fn view(&self) -> MahmEntryDataView {
        MahmEntryDataView {
            src_name: self.src_name@,
            src_units: self.src_units@,
            localised_src_name: self.localised_src_name@,
            localised_src_units: self.localised_src_units@,
            recommended_format: self.recommended_format@,
            data_bits: self.data_bits,
            min_limit_bits: self.min_limit_bits,
            max_limit_bits: self.max_limit_bits,
            flags: self.flags,
            gpu: self.gpu,
            src_id: self.src_id,
        }
    }
}

/// A GPU entry as the overlay shows it.
#[derive(Debug, PartialEq)]
pub struct MahmGpuEntryData {
    pub gpu_id: String,
    pub family: String,
    pub device: String,
    pub driver: String,
    pub bios: String,
    pub mem_amount: u32,
}

/// A `MahmGpuEntryData` with its texts taken as character sequences.
pub struct MahmGpuEntryDataView {
    pub gpu_id: Seq<char>,
    pub family: Seq<char>,
    pub device: Seq<char>,
    pub driver: Seq<char>,
    pub bios: Seq<char>,
    pub mem_amount: u32,
}

impl View for MahmGpuEntryData {
    type V = MahmGpuEntryDataView;

    open spec fn view(&self) -> MahmGpuEntryDataView {
        MahmGpuEntryDataView {
            gpu_id: self.gpu_id@,
            family: self.family@,
            device: self.device@,
            driver: self.driver@,
            bios: self.bios@,
            mem_amount: self.mem_amount,
        }
    }
}

/// Everything read from the shared memory.
#[derive(Debug, PartialEq)]
pub struct MahmData {
    pub signature: u32,
    pub version: u32,
    pub last_check: u32,
    pub entries: Vec<MahmEntryData>,
    pub gpu_entries: Vec<MahmGpuEntryData>,
}

/// `MahmData` with its lists taken as sequences of views.
pub struct MahmDataView {
    pub signature: u32,
    pub version: u32,
    pub last_check: u32,
    pub entries: Seq<MahmEntryDataView>,
    pub gpu_entries: Seq<MahmGpuEntryDataView>,
}

impl View for MahmData {
    type V = MahmDataView;

    open spec fn view(&self) -> MahmDataView {
        MahmDataView {
            signature: self.signature,
            version: self.version,
            last_check: self.last_check,
            entries: self.entries@.map_values(|e: MahmEntryData| e@),
            gpu_entries: self.gpu_entries@.map_values(|g: MahmGpuEntryData| g@),
        }
    }
}

/// The value of `u` read as a signed 32-bit integer (what `u as i32` gives).
pub open spec fn wrap_i32(u: u32) -> i32 {
    if u >= 0x8000_0000 {
        (u - 0x1_0000_0000) as i32
    } else {
        u as i32
    }
}

/// The monitoring entry that the bytes at `off` describe.
pub open spec fn spec_mahm_entry(mem: Seq<u8>, off: int) -> MahmEntryDataView {
    MahmEntryDataView {
        src_name: utf8_field(mem.subrange(off, off + 260)),
        src_units: utf8_field(mem.subrange(off + 260, off + 520)),
        localised_src_name: utf8_field(mem.subrange(off + 520, off + 780)),
        localised_src_units: utf8_field(mem.subrange(off + 780, off + 1040)),
        recommended_format: utf8_field(mem.subrange(off + 1040, off + 1300)),
        data_bits: u32_at(mem, off + 1300) as u32,
        min_limit_bits: u32_at(mem, off + 1304) as u32,
        max_limit_bits: u32_at(mem, off + 1308) as u32,
        flags: u32_at(mem, off + 1312) as u32,
        gpu: u32_at(mem, off + 1316) as u32,
        src_id: wrap_i32(u32_at(mem, off + 1320) as u32),
    }
}

/// The GPU entry that the bytes at `off` describe.
pub open spec fn spec_mahm_gpu_entry(mem: Seq<u8>, off: int) -> MahmGpuEntryDataView {
    MahmGpuEntryDataView {
        gpu_id: utf8_field(mem.subrange(off, off + 260)),
        family: utf8_field(mem.subrange(off + 260, off + 520)),
        device: utf8_field(mem.subrange(off + 520, off + 780)),
        driver: utf8_field(mem.subrange(off + 780, off + 1040)),
        bios: utf8_field(mem.subrange(off + 1040, off + 1300)),
        mem_amount: u32_at(mem, off + 1300) as u32,
    }
}

/// Monitoring entry `i` starts after the header and `i` entries.
pub open spec fn entry_offset(h: MahmHeader, i: int) -> int {
    h.dw_header_size + h.dw_entry_size * i
}

/// GPU entry `j` starts after all monitoring entries and `j` GPU entries.
pub open spec fn gpu_entry_offset(h: MahmHeader, j: int) -> int {
    h.dw_header_size + h.dw_entry_size * h.dw_num_entries + h.dw_gpu_entry_size * j
}

/// Every monitoring entry lies within `len` bytes.
pub open spec fn entries_fit(h: MahmHeader, len: int) -> bool {
    forall|i: int| 0 <= i < h.dw_num_entries ==> #[trigger] entry_offset(h, i) + ENTRY_SIZE <= len
}

/// Every GPU entry lies within `len` bytes.
pub open spec fn gpu_entries_fit(h: MahmHeader, len: int) -> bool {
    forall|j: int|
        0 <= j < h.dw_num_gpu_entries ==> #[trigger] gpu_entry_offset(h, j) + GPU_ENTRY_SIZE
            <= len
}

/// The error for a memory too short for what its header announces.
pub open spec fn mahm_truncated_message() -> Seq<char> {
    "AfterBurner shared memory is truncated"@
}

/// The error for a memory that Afterburner has not written.
pub open spec fn mahm_bad_signature_message() -> Seq<char> {
    "Invalid AfterBurner signature"@
}

/// What reading `mem` gives: an error for a short header, a signature that is
/// neither "MAHM" nor the dead mark, or an entry beyond the end; else the
/// header's fields and the entries in order.
pub open spec fn spec_read_mahm(mem: Seq<u8>) -> Result<MahmDataView, Seq<char>> {
    if mem.len() < HEADER_SIZE {
        Err(mahm_truncated_message())
    } else {
        let h = spec_mahm_header(mem);
        if h.dw_signature != MAHM_SIGNATURE && h.dw_signature != MAHM_DEAD_SIGNATURE {
            Err(mahm_bad_signature_message())
        } else if !entries_fit(h, mem.len() as int) || !gpu_entries_fit(h, mem.len() as int) {
            Err(mahm_truncated_message())
        } else {
            Ok(
                MahmDataView {
                    signature: h.dw_signature,
                    version: h.dw_version,
                    last_check: h.last_check,
                    entries: Seq::new(
                        h.dw_num_entries as nat,
                        |i: int| spec_mahm_entry(mem, entry_offset(h, i)),
                    ),
                    gpu_entries: Seq::new(
                        h.dw_num_gpu_entries as nat,
                        |j: int| spec_mahm_gpu_entry(mem, gpu_entry_offset(h, j)),
                    ),
                },
            )
        }
    }
}

fn to_i32(u: u32) -> (v: i32)
    ensures
        v == wrap_i32(u),
{
    if u >= 0x8000_0000 {
        (u as i64 - 0x1_0000_0000) as i32
    } else {
        u as i32
    }
}

fn mahm_error(truncated: bool) -> (e: String)
    ensures
        truncated ==> e@ == mahm_truncated_message(),
        !truncated ==> e@ == mahm_bad_signature_message(),
{
    if truncated {
        String::from_str("AfterBurner shared memory is truncated")
    } else {
        String::from_str("Invalid AfterBurner signature")
    }
}

fn mul_u32(a: u32, b: u32) -> (p: u128)
    ensures
        p == a * b,
        p <= 0xFFFF_FFFE_0000_0001u128,
{
    assert((a as int) * (b as int) <= 0xFFFF_FFFE_0000_0001int) by (nonlinear_arith)
        requires
            0 <= a <= 0xFFFF_FFFF,
            0 <= b <= 0xFFFF_FFFF,
    ;
    (a as u128) * (b as u128)
}

/// Reads the monitoring entries and GPU entries out of a view of the shared
/// memory.
pub fn parse_mahm_data(mem: &[u8]) -> (r: Result<MahmData, String>)
    ensures
        match spec_read_mahm(mem@) {
            Ok(v) => r matches Ok(d) && d@ == v,
            Err(m) => r matches Err(e) && e@ == m,
        },
{
    let len = mem.len();
    if len < HEADER_SIZE {
        return Err(mahm_error(true));
    }
    let h = MahmHeader::read_from(mem);
    if h.dw_signature != MAHM_SIGNATURE && h.dw_signature != MAHM_DEAD_SIGNATURE {
        return Err(mahm_error(false));
    }
    let ghost m = mem@;
    let mut entries: Vec<MahmEntryData> = Vec::new();
    let mut i: u32 = 0;
    while i < h.dw_num_entries
        invariant
            m == mem@,
            len == m.len(),
            len >= HEADER_SIZE,
            h == spec_mahm_header(m),
            h.dw_signature == MAHM_SIGNATURE || h.dw_signature == MAHM_DEAD_SIGNATURE,
            0 <= i <= h.dw_num_entries,
            entries@.len() == i,
            forall|k: int| 0 <= k < i ==> entry_offset(h, k) + ENTRY_SIZE <= len,
            forall|k: int|
                0 <= k < i ==> (#[trigger] entries@[k])@ == spec_mahm_entry(m, entry_offset(h, k)),
        decreases h.dw_num_entries - i,
    {
        let off: u128 = h.dw_header_size as u128 + mul_u32(h.dw_entry_size, i);
        if off + ENTRY_SIZE as u128 > len as u128 {
            proof {
                assert(entry_offset(h, i as int) + ENTRY_SIZE > len);
                assert(!entries_fit(h, len as int));
            }
            return Err(mahm_error(true));
        }
        let e = MahmEntry::read_from(mem, off as usize);
        let entry = MahmEntryData {
            src_name: read_utf8_string(e.sz_src_name.as_slice()),
            src_units: read_utf8_string(e.sz_src_units.as_slice()),
            localised_src_name: read_utf8_string(e.sz_localised_src_name.as_slice()),
            localised_src_units: read_utf8_string(e.sz_localised_src_units.as_slice()),
            recommended_format: read_utf8_string(e.sz_recommended_format.as_slice()),
            data_bits: e.data_bits,
            min_limit_bits: e.min_limit_bits,
            max_limit_bits: e.max_limit_bits,
            flags: e.dw_flags,
            gpu: e.dw_gpu,
            src_id: to_i32(e.dw_src_id),
        };
        entries.push(entry);
        i = i + 1;
    }
    let gpu_base: u128 = h.dw_header_size as u128 + mul_u32(h.dw_entry_size, h.dw_num_entries);
    let mut gpu_entries: Vec<MahmGpuEntryData> = Vec::new();
    let mut j: u32 = 0;
    while j < h.dw_num_gpu_entries
        invariant
            m == mem@,
            len == m.len(),
            len >= HEADER_SIZE,
            h == spec_mahm_header(m),
            h.dw_signature == MAHM_SIGNATURE || h.dw_signature == MAHM_DEAD_SIGNATURE,
            gpu_base == h.dw_header_size + h.dw_entry_size * h.dw_num_entries,
            gpu_base <= 0xFFFF_FFFF_0000_0000u128,
            0 <= j <= h.dw_num_gpu_entries,
            gpu_entries@.len() == j,
            forall|k: int| 0 <= k < j ==> gpu_entry_offset(h, k) + GPU_ENTRY_SIZE <= len,
            forall|k: int|
                0 <= k < j ==> (#[trigger] gpu_entries@[k])@ == spec_mahm_gpu_entry(
                    m,
                    gpu_entry_offset(h, k),
                ),
        decreases h.dw_num_gpu_entries - j,
    {
        let off: u128 = gpu_base + mul_u32(h.dw_gpu_entry_size, j);
        if off + GPU_ENTRY_SIZE as u128 > len as u128 {
            proof {
                assert(gpu_entry_offset(h, j as int) + GPU_ENTRY_SIZE > len);
                assert(!gpu_entries_fit(h, len as int));
            }
            return Err(mahm_error(true));
        }
        let e = MahmGpuEntry::read_from(mem, off as usize);
        let gpu_entry = MahmGpuEntryData {
            gpu_id: read_utf8_string(e.sz_gpu_id.as_slice()),
            family: read_utf8_string(e.sz_family.as_slice()),
            device: read_utf8_string(e.sz_device.as_slice()),
            driver: read_utf8_string(e.sz_driver.as_slice()),
            bios: read_utf8_string(e.sz_bios.as_slice()),
            mem_amount: e.dw_mem_amount,
        };
        gpu_entries.push(gpu_entry);
        j = j + 1;
    }
    let data = MahmData {
        signature: h.dw_signature,
        version: h.dw_version,
        last_check: h.last_check,
        entries,
        gpu_entries,
    };
    proof {
        let v = spec_read_mahm(m)->Ok_0;
        assert(data@.entries =~= v.entries);
        assert(data@.gpu_entries =~= v.gpu_entries);
    }
    Ok(data)
}

/// A successful read holds as many monitoring and GPU entries as the header
/// announces, and the header's signature, version and last update time.
pub proof fn lemma_mahm_counts(mem: Seq<u8>)
    ensures
        spec_read_mahm(mem) matches Ok(d) ==> {
            &&& d.signature == spec_mahm_header(mem).dw_signature
            &&& d.version == spec_mahm_header(mem).dw_version
            &&& d.last_check == spec_mahm_header(mem).last_check
            &&& d.entries.len() == spec_mahm_header(mem).dw_num_entries
            &&& d.gpu_entries.len() == spec_mahm_header(mem).dw_num_gpu_entries
        },
{
}

/// Each monitoring entry of a successful read holds the fields of its
/// entry where the layout puts them: entry `i` starts at the header size
/// (header bytes 8..12) plus `i` times the entry size (bytes 16..20); its
/// five texts are the NUL-terminated fields of 260 bytes from 0, and its
/// data, minimum limit, maximum limit, flags and GPU are the little-endian
/// `u32`s at 1300, 1304, 1308, 1312 and 1316; its source id is the signed
/// little-endian `i32` at 1320.
pub proof fn lemma_mahm_entry_fields(mem: Seq<u8>, i: int)
    ensures
        spec_read_mahm(mem) matches Ok(d) ==> (0 <= i < d.entries.len() ==> {
            let o = u32_at(mem, 8) + u32_at(mem, 16) * i;
            let e = d.entries[i];
            &&& d.entries.len() == u32_at(mem, 12)
            &&& e.src_name == utf8_field(mem.subrange(o, o + 260))
            &&& e.src_units == utf8_field(mem.subrange(o + 260, o + 520))
            &&& e.localised_src_name == utf8_field(mem.subrange(o + 520, o + 780))
            &&& e.localised_src_units == utf8_field(mem.subrange(o + 780, o + 1040))
            &&& e.recommended_format == utf8_field(mem.subrange(o + 1040, o + 1300))
            &&& e.data_bits == u32_at(mem, o + 1300)
            &&& e.min_limit_bits == u32_at(mem, o + 1304)
            &&& e.max_limit_bits == u32_at(mem, o + 1308)
            &&& e.flags == u32_at(mem, o + 1312)
            &&& e.gpu == u32_at(mem, o + 1316)
            &&& e.src_id == le_i32(mem[o + 1320], mem[o + 1321], mem[o + 1322], mem[o + 1323])
        }),
{
    if let Ok(d) = spec_read_mahm(mem) {
        if 0 <= i < d.entries.len() {
            let o = entry_offset(spec_mahm_header(mem), i);
            assert(d.entries[i] == spec_mahm_entry(mem, o));
        }
    }
}

/// Each GPU entry of a successful read holds the fields of its entry: GPU
/// entry `j` starts after the header (its size at bytes 8..12), all the
/// monitoring entries (their count and size at bytes 12..16 and 16..20) and
/// `j` GPU entries (their size at bytes 28..32); its five texts are the
/// NUL-terminated fields of 260 bytes from 0, and its memory amount the
/// little-endian `u32` at 1300. The signature, version and last check are
/// the `u32`s at header bytes 0, 4 and 20.
pub proof fn lemma_mahm_gpu_entry_fields(mem: Seq<u8>, j: int)
    ensures
        spec_read_mahm(mem) matches Ok(d) ==> {
            &&& d.signature == u32_at(mem, 0)
            &&& d.version == u32_at(mem, 4)
            &&& d.last_check == u32_at(mem, 20)
        },
        spec_read_mahm(mem) matches Ok(d) ==> (0 <= j < d.gpu_entries.len() ==> {
            let o = u32_at(mem, 8) + u32_at(mem, 16) * u32_at(mem, 12) + u32_at(mem, 28) * j;
            let g = d.gpu_entries[j];
            &&& d.gpu_entries.len() == u32_at(mem, 24)
            &&& g.gpu_id == utf8_field(mem.subrange(o, o + 260))
            &&& g.family == utf8_field(mem.subrange(o + 260, o + 520))
            &&& g.device == utf8_field(mem.subrange(o + 520, o + 780))
            &&& g.driver == utf8_field(mem.subrange(o + 780, o + 1040))
            &&& g.bios == utf8_field(mem.subrange(o + 1040, o + 1300))
            &&& g.mem_amount == u32_at(mem, o + 1300)
        }),
{
    if let Ok(d) = spec_read_mahm(mem) {
        if 0 <= j < d.gpu_entries.len() {
            let o = gpu_entry_offset(spec_mahm_header(mem), j);
            assert(d.gpu_entries[j] == spec_mahm_gpu_entry(mem, o));
        }
    }
}

} // verus!
