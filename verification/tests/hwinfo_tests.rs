use cleanmeter::hwinfo::{
    parse_hwinfo_data, SensorElement, SensorReadingElement, SensorSharedMem, HWINFO_SIGNATURE,
    READING_ELEMENT_SIZE, SENSOR_ELEMENT_SIZE, SHARED_MEM_SIZE,
};

fn field(v: &mut Vec<u8>, text: &[u8], size: usize) {
    let mut f = vec![0u8; size];
    f[..text.len()].copy_from_slice(text);
    v.extend_from_slice(&f);
}

fn header(sig: u32, n_sensors: u32, n_readings: u32, sensor_stride: u32) -> Vec<u8> {
    let mut v = Vec::new();
    v.extend_from_slice(&sig.to_le_bytes());
    v.extend_from_slice(&2u32.to_le_bytes());
    v.extend_from_slice(&7u32.to_le_bytes());
    v.extend_from_slice(&123456789u64.to_le_bytes());
    let sensor_off = SHARED_MEM_SIZE as u32;
    v.extend_from_slice(&sensor_off.to_le_bytes());
    v.extend_from_slice(&sensor_stride.to_le_bytes());
    v.extend_from_slice(&n_sensors.to_le_bytes());
    let reading_off = sensor_off + sensor_stride * n_sensors;
    v.extend_from_slice(&reading_off.to_le_bytes());
    v.extend_from_slice(&(READING_ELEMENT_SIZE as u32).to_le_bytes());
    v.extend_from_slice(&n_readings.to_le_bytes());
    v
}

fn sensor(v: &mut Vec<u8>, id: u64, inst: u64, name: &[u8], user: &[u8], stride: usize) {
    let start = v.len();
    v.extend_from_slice(&id.to_le_bytes());
    v.extend_from_slice(&inst.to_le_bytes());
    field(v, name, 128);
    field(v, user, 128);
    v.resize(start + stride, 0xee);
}

fn reading(v: &mut Vec<u8>, label: &[u8], unit: &[u8], value: f64) {
    v.extend_from_slice(&1u32.to_le_bytes());
    v.extend_from_slice(&0u32.to_le_bytes());
    v.extend_from_slice(&99u32.to_le_bytes());
    field(v, label, 128);
    field(v, label, 128);
    field(v, unit, 16);
    for x in [value, value - 1.0, value + 1.0, value] {
        v.extend_from_slice(&x.to_le_bytes());
    }
}

fn sample(stride: u32) -> Vec<u8> {
    let mut mem = header(HWINFO_SIGNATURE, 2, 1, stride);
    sensor(&mut mem, 0xf000_0000, 0, b"CPU [#0]: AMD Ryzen", b" My CPU ", stride as usize);
    sensor(&mut mem, 0xf000_0001, 1, b"GPU", b"", stride as usize);
    reading(&mut mem, b"Core Temp", "°C".as_bytes(), 51.25);
    mem
}

#[test]
fn reads_hwinfo_header_and_elements() {
    let mem = sample(SENSOR_ELEMENT_SIZE as u32);
    let h = SensorSharedMem::read_from(&mem);
    assert_eq!(h.dw_signature, HWINFO_SIGNATURE);
    assert_eq!(h.poll_time, 123456789);
    assert_eq!(h.dw_num_sensor_elements, 2);
    let e = SensorElement::read_from(&mem, SHARED_MEM_SIZE);
    assert_eq!(e.dw_sensor_id, 0xf000_0000);
    assert_eq!(&e.sz_sensor_name_orig[..3], b"CPU");
    let r = SensorReadingElement::read_from(&mem, SHARED_MEM_SIZE + 2 * SENSOR_ELEMENT_SIZE);
    assert_eq!(r.dw_reading_id, 99);
    assert_eq!(f64::from_bits(r.value_bits), 51.25);
}

#[test]
fn parses_the_hwinfo_memory() {
    let mem = sample(SENSOR_ELEMENT_SIZE as u32);
    let data = parse_hwinfo_data(&mem).unwrap();
    assert_eq!(data.poll_time, 123456789);
    assert_eq!(data.sensors.len(), 2);
    assert_eq!(data.sensors[0].name_orig, "CPU [#0]: AMD Ryzen");
    assert_eq!(data.sensors[0].name_user, "My CPU");
    assert_eq!(data.sensors[1].sensor_inst, 1);
    assert_eq!(data.sensors[1].name_user, "");
    assert_eq!(data.readings.len(), 1);
    assert_eq!(data.readings[0].label_orig, "Core Temp");
    assert_eq!(data.readings[0].unit, "°C");
    assert_eq!(f64::from_bits(data.readings[0].value_min_bits), 50.25);
}

#[test]
fn follows_the_element_size_in_the_header() {
    let mem = sample(300);
    let data = parse_hwinfo_data(&mem).unwrap();
    assert_eq!(data.sensors[1].name_orig, "GPU");
    assert_eq!(data.readings[0].label_user, "Core Temp");
}

#[test]
fn rejects_a_wrong_hwinfo_signature() {
    let mut mem = sample(SENSOR_ELEMENT_SIZE as u32);
    mem[0] = 0;
    assert_eq!(parse_hwinfo_data(&mem), Err("Invalid HWiNFO signature".to_string()));
}

#[test]
fn rejects_truncated_hwinfo_memory() {
    let truncated = Some("HWiNFO shared memory is truncated".to_string());
    assert_eq!(parse_hwinfo_data(&[0u8; 10]).err(), truncated.clone());
    let mut mem = sample(SENSOR_ELEMENT_SIZE as u32);
    mem.pop();
    assert_eq!(parse_hwinfo_data(&mem).err(), truncated.clone());
    let mem = header(HWINFO_SIGNATURE, 1, 0, SENSOR_ELEMENT_SIZE as u32);
    assert_eq!(parse_hwinfo_data(&mem).err(), truncated);
}

#[test]
fn an_empty_memory_has_no_elements() {
    let mem = header(HWINFO_SIGNATURE, 0, 0, 0);
    let data = parse_hwinfo_data(&mem).unwrap();
    assert!(data.sensors.is_empty());
    assert!(data.readings.is_empty());
}
