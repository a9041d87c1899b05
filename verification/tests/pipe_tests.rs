use cleanmeter::pipe::{
    decode_hardware_data, decode_present_mon_apps, frame_command, frame_payload_len,
    parse_hardware_data, parse_present_mon_apps, polling_rate_packet_bytes, present_mon_app_packet,
    refresh_apps_packet_bytes, ByteCursor, Decoded, Hardware, HardwareMonitorData, MessageOutcome,
    Sensor, COMMAND_DATA, COMMAND_POLLING_RATE, COMMAND_PRESENT_MON_APPS, COMMAND_REFRESH_APPS,
    COMMAND_SELECT_APP, NAME_SIZE,
};

fn put_i16(v: &mut Vec<u8>, x: i16) {
    v.extend_from_slice(&x.to_le_bytes());
}

fn put_i32(v: &mut Vec<u8>, x: i32) {
    v.extend_from_slice(&x.to_le_bytes());
}

fn hardware_record(v: &mut Vec<u8>, name: &str, id: &str, kind: i32) {
    put_i16(v, name.len() as i16);
    put_i16(v, id.len() as i16);
    v.extend_from_slice(name.as_bytes());
    v.extend_from_slice(id.as_bytes());
    put_i32(v, kind);
}

fn sensor_record(v: &mut Vec<u8>, name: &str, id: &str, hw: &str, kind: i32, value: f32) {
    put_i16(v, name.len() as i16);
    put_i16(v, id.len() as i16);
    put_i16(v, hw.len() as i16);
    v.extend_from_slice(name.as_bytes());
    v.extend_from_slice(id.as_bytes());
    v.extend_from_slice(hw.as_bytes());
    put_i32(v, kind);
    v.extend_from_slice(&value.to_le_bytes());
}

fn sample_data_payload() -> Vec<u8> {
    let mut p = Vec::new();
    put_i32(&mut p, 1);
    put_i32(&mut p, 2);
    hardware_record(&mut p, "Mock CPU", "/intelcpu/0", 2);
    sensor_record(&mut p, "CPU Core", "/intelcpu/0/temperature/0", "/intelcpu/0", 4, 45.5);
    sensor_record(&mut p, "CPU Total Load", "/intelcpu/0/load/0", "/intelcpu/0", 5, 12.0);
    p
}

fn app_slot(v: &mut Vec<u8>, name: &[u8]) {
    let mut slot = [0u8; NAME_SIZE];
    slot[..name.len()].copy_from_slice(name);
    v.extend_from_slice(&slot);
}

#[test]
fn cursor_reads_little_endian_values_in_order() {
    let mut p = Vec::new();
    put_i16(&mut p, -2);
    put_i32(&mut p, 70000);
    p.extend_from_slice(&1.5f32.to_le_bytes());
    p.extend_from_slice(b"hi");
    let mut c = ByteCursor::new(&p);
    assert_eq!(c.read_i16(), Ok(-2));
    assert_eq!(c.offset(), 2);
    assert_eq!(c.read_i32(), Ok(70000));
    assert_eq!(c.read_f32_bits().map(f32::from_bits), Ok(1.5));
    assert_eq!(c.read_string(2), Ok("hi".to_string()));
    assert_eq!(c.offset(), 12);
}

#[test]
fn cursor_fails_past_the_end_and_stays_put() {
    let p = [1u8, 2, 3];
    let mut c = ByteCursor::new(&p);
    assert_eq!(c.read_i32(), Err("Unexpected end of payload".to_string()));
    assert_eq!(c.offset(), 0);
    assert_eq!(c.read_i16(), Ok(0x0201));
    assert_eq!(c.read_i16(), Err("Unexpected end of payload".to_string()));
    assert_eq!(c.read_string(2), Err("Unexpected end of payload".to_string()));
    assert_eq!(c.offset(), 2);
    assert_eq!(c.read_chars(1), Ok(vec!['\u{3}']));
}

#[test]
fn parses_a_data_payload() {
    let p = sample_data_payload();
    let parsed = parse_hardware_data(&p).unwrap();
    assert_eq!(
        parsed.hardwares,
        vec![Hardware { name: "Mock CPU".to_string(), identifier: "/intelcpu/0".to_string(), hardware_type: 2 }]
    );
    assert_eq!(parsed.sensors.len(), 2);
    assert_eq!(
        parsed.sensors[0],
        Sensor {
            name: "CPU Core".to_string(),
            identifier: "/intelcpu/0/temperature/0".to_string(),
            hardware_identifier: "/intelcpu/0".to_string(),
            sensor_type: 4,
            value_bits: 45.5f32.to_bits(),
        }
    );
    assert_eq!(f32::from_bits(parsed.sensors[1].value_bits), 12.0);
}

#[test]
fn data_payload_errors() {
    let end = Err("Unexpected end of payload".to_string());
    assert_eq!(parse_hardware_data(&[0, 0, 0]).map(|_| ()), end.clone());
    let mut p = sample_data_payload();
    p.pop();
    assert_eq!(parse_hardware_data(&p).map(|_| ()), end);
    assert_eq!(decode_hardware_data(&p), Decoded::Truncated);
}

#[test]
fn negative_lengths_are_malformed() {
    let mut neg = Vec::new();
    put_i32(&mut neg, 1);
    put_i32(&mut neg, 0);
    put_i16(&mut neg, -1);
    put_i16(&mut neg, 0);
    neg.extend_from_slice(&[0u8; 16]);
    assert_eq!(decode_hardware_data(&neg), Decoded::Malformed);
    let mut neg_id = Vec::new();
    put_i32(&mut neg_id, 0);
    put_i32(&mut neg_id, 1);
    put_i16(&mut neg_id, 1);
    put_i16(&mut neg_id, 0);
    put_i16(&mut neg_id, -3);
    neg_id.extend_from_slice(b"x");
    assert_eq!(decode_hardware_data(&neg_id), Decoded::Malformed);
    let mut short_first = Vec::new();
    put_i32(&mut short_first, 1);
    put_i32(&mut short_first, 0);
    put_i16(&mut short_first, 5);
    put_i16(&mut short_first, -1);
    short_first.extend_from_slice(b"ab");
    assert_eq!(decode_hardware_data(&short_first), Decoded::Truncated);
}

#[test]
fn negative_lengths_reaching_before_the_start_are_truncated() {
    let p = [1u8, 0, 0, 0, 0, 0, 0, 0, 0x9C, 0xFF, 0, 0];
    assert_eq!(decode_hardware_data(&p), Decoded::Truncated);
    assert_eq!(
        parse_hardware_data(&p).map(|_| ()),
        Err("Unexpected end of payload".to_string())
    );
    let mut at_start = Vec::new();
    put_i32(&mut at_start, 1);
    put_i32(&mut at_start, 0);
    put_i16(&mut at_start, -12);
    put_i16(&mut at_start, 0);
    assert_eq!(decode_hardware_data(&at_start), Decoded::Malformed);
    let mut one_short = Vec::new();
    put_i32(&mut one_short, 1);
    put_i32(&mut one_short, 0);
    put_i16(&mut one_short, -13);
    put_i16(&mut one_short, 0);
    assert_eq!(decode_hardware_data(&one_short), Decoded::Truncated);
}

#[test]
fn negative_counts_are_malformed() {
    let mut p = Vec::new();
    put_i32(&mut p, -5);
    put_i32(&mut p, 0);
    assert_eq!(decode_hardware_data(&p), Decoded::Malformed);
    let mut q = Vec::new();
    put_i32(&mut q, 0);
    put_i32(&mut q, -1);
    assert_eq!(decode_hardware_data(&q), Decoded::Malformed);
    let mut short = Vec::new();
    put_i32(&mut short, -5);
    assert_eq!(decode_hardware_data(&short), Decoded::Truncated);
    let mut a = Vec::new();
    put_i16(&mut a, -3);
    assert_eq!(decode_present_mon_apps(&a), Decoded::Malformed);
    let mut b = Vec::new();
    put_i16(&mut b, -2);
    assert_eq!(decode_present_mon_apps(&b), Decoded::Malformed);
    let mut none = Vec::new();
    put_i16(&mut none, -1);
    none.extend_from_slice(b"ignored");
    assert_eq!(decode_present_mon_apps(&none), Decoded::Complete(vec!["Auto".to_string()]));
    assert_eq!(parse_present_mon_apps(&none), Ok(vec!["Auto".to_string()]));
    let mut z = Vec::new();
    put_i32(&mut z, 0);
    put_i32(&mut z, 0);
    assert_eq!(
        decode_hardware_data(&z),
        Decoded::Complete(cleanmeter::pipe::ParsedData { hardwares: vec![], sensors: vec![] })
    );
}

#[test]
fn parses_an_application_list() {
    let mut p = Vec::new();
    put_i16(&mut p, 4);
    app_slot(&mut p, b"cyberpunk2077.exe");
    app_slot(&mut p, b"");
    app_slot(&mut p, b"  eldenring.exe \t");
    app_slot(&mut p, b"\0\0 \0");
    let apps = parse_present_mon_apps(&p).unwrap();
    assert_eq!(apps, vec!["Auto", "cyberpunk2077.exe", "eldenring.exe"]);
}

#[test]
fn application_list_errors() {
    let end = Err("Unexpected end of payload".to_string());
    assert_eq!(parse_present_mon_apps(&[1]), end.clone());
    let mut p = Vec::new();
    put_i16(&mut p, 2);
    app_slot(&mut p, b"game.exe");
    assert_eq!(parse_present_mon_apps(&p), end);
}

#[test]
fn builds_command_packets() {
    assert_eq!(present_mon_app_packet("game.exe"), {
        let mut v = vec![2, 0, 8, 0];
        v.extend_from_slice(b"game.exe");
        v
    });
    assert_eq!(polling_rate_packet_bytes(500), vec![4, 0, 0xf4, 0x01]);
    assert_eq!(polling_rate_packet_bytes(-1), vec![4, 0, 0xff, 0xff]);
    assert_eq!(refresh_apps_packet_bytes(), vec![1, 0]);
}

#[test]
fn packets_read_back_through_a_cursor() {
    let p = polling_rate_packet_bytes(1234);
    let mut c = ByteCursor::new(&p);
    assert_eq!(c.read_i16(), Ok(COMMAND_POLLING_RATE));
    assert_eq!(c.read_i16(), Ok(1234));
    let p = present_mon_app_packet("añb.exe");
    let mut c = ByteCursor::new(&p);
    assert_eq!(c.read_i16(), Ok(COMMAND_SELECT_APP));
    assert_eq!(c.read_i16(), Ok(8));
    assert_eq!(c.read_string(8), Ok("añb.exe".to_string()));
    let p = refresh_apps_packet_bytes();
    assert_eq!(ByteCursor::new(&p).read_i16(), Ok(COMMAND_REFRESH_APPS));
}

#[test]
fn long_names_wrap_the_length_field() {
    let name = "x".repeat(70000);
    let p = present_mon_app_packet(&name);
    assert_eq!(p.len(), 70004);
    assert_eq!(i16::from_le_bytes([p[2], p[3]]), 70000u32 as u16 as i16);
}

#[test]
fn decodes_frame_headers() {
    assert_eq!(frame_command([3, 0]), COMMAND_PRESENT_MON_APPS);
    assert_eq!(frame_command([0, 0]), COMMAND_DATA);
    assert_eq!(frame_payload_len(1000i32.to_le_bytes()), Some(1000));
    assert_eq!(frame_payload_len(0i32.to_le_bytes()), Some(0));
    assert_eq!(frame_payload_len((-1i32).to_le_bytes()), None);
}

#[test]
fn messages_update_their_own_part_of_the_state() {
    let mut state = HardwareMonitorData::new();
    assert_eq!(state.last_poll_time, 0);
    let p = sample_data_payload();
    assert_eq!(state.apply_message(COMMAND_DATA, &p, 42), MessageOutcome::Emit);
    assert_eq!(state.last_poll_time, 42);
    assert_eq!(state.hardwares.len(), 1);
    assert_eq!(state.sensors.len(), 2);
    assert!(state.present_mon_apps.is_empty());

    let mut a = Vec::new();
    put_i16(&mut a, 1);
    app_slot(&mut a, b"game.exe");
    assert_eq!(state.apply_message(COMMAND_PRESENT_MON_APPS, &a, 99), MessageOutcome::Emit);
    assert_eq!(state.present_mon_apps, vec!["Auto", "game.exe"]);
    assert_eq!(state.last_poll_time, 42);
    assert_eq!(state.sensors.len(), 2);
}

#[test]
fn other_or_broken_messages_change_nothing() {
    let mut state = HardwareMonitorData::new();
    let p = sample_data_payload();
    assert_eq!(state.apply_message(COMMAND_DATA, &p, 7), MessageOutcome::Emit);
    assert_eq!(state.apply_message(5, &p, 8), MessageOutcome::Ignore);
    assert_eq!(state.apply_message(COMMAND_DATA, &p[..5], 9), MessageOutcome::Ignore);
    assert_eq!(state.apply_message(COMMAND_PRESENT_MON_APPS, &[1, 0, 1], 10), MessageOutcome::Ignore);
    let mut neg = Vec::new();
    put_i16(&mut neg, -2);
    assert_eq!(state.apply_message(COMMAND_PRESENT_MON_APPS, &neg, 11), MessageOutcome::Abort);
    let mut neg_data = Vec::new();
    put_i32(&mut neg_data, -1);
    put_i32(&mut neg_data, 0);
    assert_eq!(state.apply_message(COMMAND_DATA, &neg_data, 12), MessageOutcome::Abort);
    assert_eq!(state.last_poll_time, 7);
    assert_eq!(state.hardwares.len(), 1);
    assert!(state.present_mon_apps.is_empty());
}

#[test]
fn trailing_bytes_are_ignored() {
    let p = sample_data_payload();
    let mut longer = p.clone();
    longer.extend_from_slice(&[7, 7, 7, 0, 1]);
    assert_eq!(decode_hardware_data(&longer), decode_hardware_data(&p));
    assert_eq!(parse_hardware_data(&longer), parse_hardware_data(&p));
    let mut a = Vec::new();
    put_i16(&mut a, 1);
    app_slot(&mut a, b"game.exe");
    let mut b = a.clone();
    b.extend_from_slice(b"junk");
    assert_eq!(decode_present_mon_apps(&b), decode_present_mon_apps(&a));
}

#[test]
fn an_application_count_of_minus_one_lists_only_auto() {
    let mut state = HardwareMonitorData::new();
    let mut p = Vec::new();
    put_i16(&mut p, -1);
    assert_eq!(state.apply_message(COMMAND_PRESENT_MON_APPS, &p, 3), MessageOutcome::Emit);
    assert_eq!(state.present_mon_apps, vec!["Auto"]);
    assert_eq!(state.last_poll_time, 0);
}
