use portscope::merge::merge_directory;
use portscope::socket::{build_socket, ListeningSocket};
use portscope::table::{decode_listening, AddressFamily};

fn push_u32_le(buf: &mut Vec<u8>, x: u32) {
    buf.push((x & 0xFF) as u8);
    buf.push(((x >> 8) & 0xFF) as u8);
    buf.push(((x >> 16) & 0xFF) as u8);
    buf.push(((x >> 24) & 0xFF) as u8);
}

fn v4_table() -> Vec<u8> {
    let mut buf = Vec::new();
    push_u32_le(&mut buf, 3);
    for (state, port_field, pid) in [(2, 0x901F, 100), (4, 0x5000, 7), (2, 0xBB01, 200)] {
        push_u32_le(&mut buf, state);
        push_u32_le(&mut buf, 0);
        push_u32_le(&mut buf, port_field);
        push_u32_le(&mut buf, 0);
        push_u32_le(&mut buf, 0);
        push_u32_le(&mut buf, pid);
    }
    buf
}

fn v6_table() -> Vec<u8> {
    let mut buf = Vec::new();
    push_u32_le(&mut buf, 2);
    for (state, port_field, pid) in [(2, 0x901F, 100), (2, 0x1600, 300)] {
        for _ in 0..16 {
            buf.push(0);
        }
        push_u32_le(&mut buf, 0);
        push_u32_le(&mut buf, port_field);
        for _ in 0..16 {
            buf.push(0);
        }
        push_u32_le(&mut buf, 0);
        push_u32_le(&mut buf, 0);
        push_u32_le(&mut buf, state);
        push_u32_le(&mut buf, pid);
    }
    buf
}

// stands in for the native module-path query of a run where the system state
// does not change between two snapshots
fn resolve_path(pid: u32) -> String {
    match pid {
        100 => "C:\\Windows\\System32\\svchost.exe".to_string(),
        300 => "C:\\tools\\server.exe".to_string(),
        _ => String::new(),
    }
}

fn snapshot() -> Vec<ListeningSocket> {
    let v4 = decode_listening(&v4_table(), AddressFamily::V4)
        .unwrap()
        .into_iter()
        .map(|k| build_socket(k, resolve_path(k.pid)))
        .collect();
    let v6 = decode_listening(&v6_table(), AddressFamily::V6)
        .unwrap()
        .into_iter()
        .map(|k| build_socket(k, resolve_path(k.pid)))
        .collect();
    merge_directory(v4, v6)
}

#[test]
fn unchanged_state_gives_identical_snapshots() {
    let first = snapshot();
    let second = snapshot();
    assert_eq!(first, second);
}

#[test]
fn snapshot_is_merged_and_resolved() {
    let s = snapshot();
    // (8080, 100) appears in both families and is kept once; port order is
    // ascending: 22, 443, 8080
    assert_eq!(s.len(), 3);
    assert_eq!((s[0].port, s[0].pid), (22, 300));
    assert_eq!(s[0].process_name, "server.exe");
    assert_eq!((s[1].port, s[1].pid), (443, 200));
    assert_eq!(s[1].process_name, "PID 200");
    assert_eq!(s[1].process_path, "");
    assert_eq!((s[2].port, s[2].pid), (8080, 100));
    assert_eq!(s[2].process_name, "svchost.exe");
}
