use filelocksmith::system_info::nt_success;
use filelocksmith::{parse_object_name, parse_system_handle_information, read_unicode_string};

fn entry64(object: u64, pid: u64, handle: u64, access: u32, trace: u16, ty: u16, attrs: u32) -> Vec<u8> {
    let mut v = Vec::new();
    v.extend_from_slice(&object.to_le_bytes());
    v.extend_from_slice(&pid.to_le_bytes());
    v.extend_from_slice(&handle.to_le_bytes());
    v.extend_from_slice(&access.to_le_bytes());
    v.extend_from_slice(&trace.to_le_bytes());
    v.extend_from_slice(&ty.to_le_bytes());
    v.extend_from_slice(&attrs.to_le_bytes());
    v.extend_from_slice(&0u32.to_le_bytes());
    v
}

#[test]
fn handle_table_with_64_bit_pointers() {
    let mut buf = Vec::new();
    buf.extend_from_slice(&2u64.to_le_bytes());
    buf.extend_from_slice(&0u64.to_le_bytes());
    buf.extend(entry64(0xffff_8000_1234_0000, 4, 0x1c, 0x12019f, 0, 37, 2));
    buf.extend(entry64(0xffff_8000_5678_0000, 1234, 0x2a8, 0x100081, 1, 38, 0));
    buf.extend_from_slice(&[0u8; 24]);
    let info = parse_system_handle_information(&buf, 8).expect("table fits");
    assert_eq!(info.number_of_handles, 2);
    assert_eq!(info.handles.len(), 2);
    assert_eq!(info.handles[0].object, 0xffff_8000_1234_0000);
    assert_eq!(info.handles[0].unique_process_id, 4);
    assert_eq!(info.handles[0].handle_value, 0x1c);
    assert_eq!(info.handles[0].granted_access, 0x12019f);
    assert_eq!(info.handles[0].object_type_index, 37);
    assert_eq!(info.handles[0].handle_attributes, 2);
    assert_eq!(info.handles[1].unique_process_id, 1234);
    assert_eq!(info.handles[1].handle_value, 0x2a8);
    assert_eq!(info.handles[1].creator_back_trace_index, 1);
}

#[test]
fn handle_table_with_32_bit_pointers() {
    let mut buf = Vec::new();
    buf.extend_from_slice(&1u32.to_le_bytes());
    buf.extend_from_slice(&0u32.to_le_bytes());
    buf.extend_from_slice(&0x8000_1000u32.to_le_bytes());
    buf.extend_from_slice(&500u32.to_le_bytes());
    buf.extend_from_slice(&0x44u32.to_le_bytes());
    buf.extend_from_slice(&0x1fu32.to_le_bytes());
    buf.extend_from_slice(&3u16.to_le_bytes());
    buf.extend_from_slice(&28u16.to_le_bytes());
    buf.extend_from_slice(&0u32.to_le_bytes());
    buf.extend_from_slice(&9u32.to_le_bytes());
    let info = parse_system_handle_information(&buf, 4).expect("table fits");
    assert_eq!(info.number_of_handles, 1);
    assert_eq!(info.handles[0].object, 0x8000_1000);
    assert_eq!(info.handles[0].unique_process_id, 500);
    assert_eq!(info.handles[0].handle_value, 0x44);
    assert_eq!(info.handles[0].creator_back_trace_index, 3);
    assert_eq!(info.handles[0].object_type_index, 28);
    assert_eq!(info.handles[0].reserved, 9);
}

#[test]
fn handle_table_counting_more_than_it_holds_is_refused() {
    let mut buf = Vec::new();
    buf.extend_from_slice(&3u64.to_le_bytes());
    buf.extend_from_slice(&0u64.to_le_bytes());
    buf.extend(entry64(1, 2, 3, 4, 5, 6, 7));
    buf.extend(entry64(1, 2, 3, 4, 5, 6, 7));
    assert!(parse_system_handle_information(&buf, 8).is_none());
    assert!(parse_system_handle_information(&[0u8; 15], 8).is_none());
    let mut empty = Vec::new();
    empty.extend_from_slice(&0u64.to_le_bytes());
    empty.extend_from_slice(&0u64.to_le_bytes());
    assert_eq!(parse_system_handle_information(&empty, 8).map(|i| i.handles.len()), Some(0));
}

fn object_name_buffer(base: u64, length: u16, max: u16, ptr: u64, units: &[u16]) -> Vec<u8> {
    let _ = base;
    let mut buf = Vec::new();
    buf.extend_from_slice(&length.to_le_bytes());
    buf.extend_from_slice(&max.to_le_bytes());
    buf.extend_from_slice(&[0u8; 4]);
    buf.extend_from_slice(&ptr.to_le_bytes());
    for u in units {
        buf.extend_from_slice(&u.to_le_bytes());
    }
    buf
}

#[test]
fn object_name_is_read_from_inside_the_buffer() {
    let base = 0x10_0000u64;
    let units: Vec<u16> = r"\Device\X".encode_utf16().chain(std::iter::once(0)).collect();
    let length = ((units.len() - 1) * 2) as u16;
    let max = (units.len() * 2) as u16;
    let buf = object_name_buffer(base, length, max, base + 16, &units);
    let us = parse_object_name(&buf, base, 8).expect("name fits");
    assert_eq!(us.length, length);
    assert_eq!(us.maximum_length, max);
    let name = read_unicode_string(&us);
    assert_eq!(String::from_utf16(&name).unwrap(), r"\Device\X");
}

#[test]
fn object_name_with_null_pointer_is_empty() {
    let buf = object_name_buffer(0x1000, 0, 0, 0, &[]);
    let us = parse_object_name(&buf, 0x1000, 8).expect("empty name");
    assert!(us.buffer.is_none());
    assert!(read_unicode_string(&us).is_empty());
}

#[test]
fn object_name_pointing_outside_the_buffer_is_refused() {
    let base = 0x2000u64;
    let buf = object_name_buffer(base, 4, 4, base + 100, &[65, 66]);
    assert!(parse_object_name(&buf, base, 8).is_none());
    let below = object_name_buffer(base, 4, 4, base - 2, &[65, 66]);
    assert!(parse_object_name(&below, base, 8).is_none());
    let longer = object_name_buffer(base, 6, 4, base + 16, &[65, 66]);
    assert!(parse_object_name(&longer, base, 8).is_none());
}

#[test]
fn negative_statuses_are_failures() {
    assert!(nt_success(0));
    assert!(!nt_success(-1073741820));
}
