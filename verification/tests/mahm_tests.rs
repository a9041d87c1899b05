use cleanmeter::mahm::{
    parse_mahm_data, MahmEntry, MahmGpuEntry, MahmHeader, ENTRY_SIZE, GPU_ENTRY_SIZE,
    HEADER_SIZE, MAHM_DEAD_SIGNATURE, MAHM_SIGNATURE,
};

fn field(v: &mut Vec<u8>, text: &[u8]) {
    let mut f = vec![0u8; 260];
    f[..text.len()].copy_from_slice(text);
    v.extend_from_slice(&f);
}

fn image(sig: u32, n: u32, n_gpu: u32) -> Vec<u8> {
    let mut v = Vec::new();
    for x in [sig, 0x0002_0000, HEADER_SIZE as u32, n, ENTRY_SIZE as u32, 1700000000, n_gpu, GPU_ENTRY_SIZE as u32] {
        v.extend_from_slice(&x.to_le_bytes());
    }
    for i in 0..n {
        field(&mut v, b"GPU temperature");
        field(&mut v, b"\xb0C");
        field(&mut v, b"GPU temperature");
        field(&mut v, "°C".as_bytes());
        field(&mut v, b"%.0f");
        for x in [61.0f32 + i as f32, 0.0, 100.0] {
            v.extend_from_slice(&x.to_le_bytes());
        }
        for x in [1u32, 0, 0xffff_fffe] {
            v.extend_from_slice(&x.to_le_bytes());
        }
    }
    for _ in 0..n_gpu {
        field(&mut v, b"VEN_10DE&DEV_2684");
        field(&mut v, b"AD102-A");
        field(&mut v, b"NVIDIA GeForce RTX 4090 ");
        field(&mut v, b"546.33");
        field(&mut v, b"95.02.18.80.5F");
        v.extend_from_slice(&24576u32.to_le_bytes());
    }
    v
}

#[test]
fn reads_header_and_entries() {
    let mem = image(MAHM_SIGNATURE, 1, 1);
    let h = MahmHeader::read_from(&mem);
    assert_eq!(h.dw_num_entries, 1);
    assert_eq!(h.last_check, 1700000000);
    let e = MahmEntry::read_from(&mem, HEADER_SIZE);
    assert_eq!(f32::from_bits(e.data_bits), 61.0);
    assert_eq!(e.dw_src_id, 0xffff_fffe);
    let g = MahmGpuEntry::read_from(&mem, HEADER_SIZE + ENTRY_SIZE);
    assert_eq!(g.dw_mem_amount, 24576);
}

#[test]
fn parses_the_mahm_memory() {
    let mem = image(MAHM_SIGNATURE, 2, 1);
    let data = parse_mahm_data(&mem).unwrap();
    assert_eq!(data.signature, MAHM_SIGNATURE);
    assert_eq!(data.version, 0x0002_0000);
    assert_eq!(data.entries.len(), 2);
    assert_eq!(data.entries[0].src_name, "GPU temperature");
    assert_eq!(data.entries[0].src_units, "\u{fffd}C");
    assert_eq!(data.entries[0].localised_src_units, "°C");
    assert_eq!(f32::from_bits(data.entries[1].data_bits), 62.0);
    assert_eq!(data.entries[0].src_id, -2);
    assert_eq!(data.gpu_entries.len(), 1);
    assert_eq!(data.gpu_entries[0].device, "NVIDIA GeForce RTX 4090");
    assert_eq!(data.gpu_entries[0].mem_amount, 24576);
}

#[test]
fn reads_a_memory_marked_dead() {
    let mem = image(MAHM_DEAD_SIGNATURE, 0, 0);
    let data = parse_mahm_data(&mem).unwrap();
    assert_eq!(data.signature, 0xDEAD);
    assert!(data.entries.is_empty());
}

#[test]
fn rejects_a_wrong_mahm_signature() {
    let mem = image(0x1234, 0, 0);
    assert_eq!(parse_mahm_data(&mem), Err("Invalid AfterBurner signature".to_string()));
}

#[test]
fn rejects_truncated_mahm_memory() {
    let truncated = Some("AfterBurner shared memory is truncated".to_string());
    assert_eq!(parse_mahm_data(&[0u8; 31]).err(), truncated.clone());
    let mut mem = image(MAHM_SIGNATURE, 1, 1);
    mem.pop();
    assert_eq!(parse_mahm_data(&mem).err(), truncated.clone());
    let mut mem = image(MAHM_SIGNATURE, 1, 0);
    mem.truncate(HEADER_SIZE + ENTRY_SIZE - 1);
    assert_eq!(parse_mahm_data(&mem).err(), truncated);
}
