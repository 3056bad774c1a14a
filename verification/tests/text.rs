use filelocksmith::text::MODULE_NAME_BUFFER_LEN;
use filelocksmith::token::SE_DEBUG_NAME;
use filelocksmith::{process_path_from_module_name, read_unicode_string, wide_nul, UnicodeString};

#[test]
fn wide_names_match_the_system_encodings() {
    assert_eq!(wide_nul(b"ntdll.dll"), vec![110, 116, 100, 108, 108, 46, 100, 108, 108, 0]);
    assert_eq!(
        wide_nul(b"SeDebugPrivilege"),
        vec![83, 101, 68, 101, 98, 117, 103, 80, 114, 105, 118, 105, 108, 101, 103, 101, 0]
    );
    assert_eq!(wide_nul(b""), vec![0]);
    assert_eq!(wide_nul(b"SeDebugPrivilege"), SE_DEBUG_NAME.to_vec());
}

#[test]
fn counted_string_reads_half_its_byte_length() {
    let us = UnicodeString { length: 6, maximum_length: 10, buffer: Some(vec![65, 66, 67, 68, 0]) };
    assert_eq!(read_unicode_string(&us), vec![65, 66, 67]);
}

#[test]
fn counted_string_with_null_buffer_or_zero_length_is_empty() {
    let null = UnicodeString { length: 6, maximum_length: 6, buffer: None };
    assert!(read_unicode_string(&null).is_empty());
    let zero = UnicodeString { length: 0, maximum_length: 4, buffer: Some(vec![65, 66]) };
    assert!(read_unicode_string(&zero).is_empty());
    let odd = UnicodeString { length: 5, maximum_length: 6, buffer: Some(vec![65, 66, 67]) };
    assert_eq!(read_unicode_string(&odd), vec![65, 66]);
}

#[test]
fn module_path_is_decoded_up_to_the_returned_length() {
    let mut buf = vec![0u16; MODULE_NAME_BUFFER_LEN];
    let path: Vec<u16> = r"C:\Windows\notepad.exe".encode_utf16().collect();
    buf[..path.len()].copy_from_slice(&path);
    assert_eq!(
        process_path_from_module_name(&buf, path.len() as u32),
        Some(String::from(r"C:\Windows\notepad.exe"))
    );
}

#[test]
fn module_path_of_zero_length_is_none() {
    let buf = vec![67u16, 58u16];
    assert_eq!(process_path_from_module_name(&buf, 0), None);
}

#[test]
fn module_path_length_past_the_buffer_takes_the_whole_buffer() {
    let buf: Vec<u16> = "abc".encode_utf16().collect();
    assert_eq!(process_path_from_module_name(&buf, 10), Some(String::from("abc")));
}

#[test]
fn module_path_replaces_unpaired_surrogates() {
    let buf = vec![0x61u16, 0xD800u16, 0x62u16];
    assert_eq!(process_path_from_module_name(&buf, 3), Some(String::from("a\u{FFFD}b")));
}

#[test]
fn text_without_surrogates_decodes_unit_by_unit() {
    let buf = vec![0x41u16, 0xE9u16, 0xFF21u16];
    assert_eq!(process_path_from_module_name(&buf, 3), Some(String::from("A\u{E9}\u{FF21}")));
}
