use portscope::resolve::{derive_display_name, truncate_at_nul};
use portscope::socket::build_socket;
use portscope::table::ListenerKey;
use portscope::text::{pid_label_string, u32_to_string};

#[test]
fn unresolved_process_degrades_to_synthetic_name() {
    let key = ListenerKey { port: 8080, pid: 4242 };
    let s = build_socket(key, String::new());
    assert_eq!(s.port, 8080);
    assert_eq!(s.pid, 4242);
    assert_eq!(s.process_name, "PID 4242");
    assert_eq!(s.process_path, "");
}

#[test]
fn name_is_final_path_component() {
    let key = ListenerKey { port: 80, pid: 7 };
    let s = build_socket(key, "C:\\Windows\\System32\\svchost.exe".to_string());
    assert_eq!(s.process_name, "svchost.exe");
    assert_eq!(s.process_path, "C:\\Windows\\System32\\svchost.exe");
}

#[test]
fn name_without_separator_is_whole_path() {
    assert_eq!(derive_display_name("svchost.exe", 1), "svchost.exe");
}

#[test]
fn name_after_trailing_separator_is_empty() {
    assert_eq!(derive_display_name("C:\\", 1), "");
}

#[test]
fn empty_path_yields_pid_label() {
    assert_eq!(derive_display_name("", 99), "PID 99");
}

#[test]
fn truncation_stops_at_first_nul() {
    let mut buf: Vec<u16> = vec![0x63, 0x3A, 0x5C, 0, 0x7A, 0];
    truncate_at_nul(&mut buf);
    assert_eq!(buf, vec![0x63, 0x3A, 0x5C]);
}

#[test]
fn truncation_without_nul_keeps_everything() {
    let mut buf: Vec<u16> = vec![1, 2, 3];
    truncate_at_nul(&mut buf);
    assert_eq!(buf, vec![1, 2, 3]);
}

#[test]
fn truncation_of_leading_nul_empties_buffer() {
    let mut buf: Vec<u16> = vec![0, 7, 8];
    truncate_at_nul(&mut buf);
    assert_eq!(buf, Vec::<u16>::new());
}

#[test]
fn decimal_rendering_is_exact() {
    assert_eq!(u32_to_string(0), "0");
    assert_eq!(u32_to_string(8080), "8080");
    assert_eq!(u32_to_string(7), "7");
    assert_eq!(u32_to_string(1000000), "1000000");
    assert_eq!(u32_to_string(u32::MAX), "4294967295");
}

#[test]
fn pid_label_is_prefixed() {
    assert_eq!(pid_label_string(0), "PID 0");
    assert_eq!(pid_label_string(31337), "PID 31337");
}
