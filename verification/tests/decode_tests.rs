use portscope::ntohs;
use portscope::table::{decode_listening, decode_table, AddressFamily, DecodeError};

fn push_u32_le(buf: &mut Vec<u8>, x: u32) {
    buf.push((x & 0xFF) as u8);
    buf.push(((x >> 8) & 0xFF) as u8);
    buf.push(((x >> 16) & 0xFF) as u8);
    buf.push(((x >> 24) & 0xFF) as u8);
}

fn push_v4_row(buf: &mut Vec<u8>, state: u32, port_field: u32, pid: u32) {
    push_u32_le(buf, state); // dwState
    push_u32_le(buf, 0); // local address
    push_u32_le(buf, port_field); // dwLocalPort
    push_u32_le(buf, 0); // remote address
    push_u32_le(buf, 0); // remote port
    push_u32_le(buf, pid); // dwOwningPid
}

fn push_v6_row(buf: &mut Vec<u8>, state: u32, port_field: u32, pid: u32) {
    for _ in 0..16 {
        buf.push(0); // local address
    }
    push_u32_le(buf, 0); // local scope id
    push_u32_le(buf, port_field); // dwLocalPort
    for _ in 0..16 {
        buf.push(0); // remote address
    }
    push_u32_le(buf, 0); // remote scope id
    push_u32_le(buf, 0); // remote port
    push_u32_le(buf, state); // dwState
    push_u32_le(buf, pid); // dwOwningPid
}

#[test]
fn decode_v4_round_trip() {
    let mut buf = Vec::new();
    push_u32_le(&mut buf, 2);
    push_v4_row(&mut buf, 2, 0x901F, 111);
    push_v4_row(&mut buf, 5, 0x2000, 222);
    let rows = decode_table(&buf, AddressFamily::V4).unwrap();
    assert_eq!(rows.len(), 2);
    assert_eq!(rows[0].state, 2);
    assert_eq!(rows[0].local_port_field, 0x901F);
    assert_eq!(rows[0].pid, 111);
    assert_eq!(rows[1].state, 5);
    assert_eq!(rows[1].local_port_field, 0x2000);
    assert_eq!(rows[1].pid, 222);
}

#[test]
fn only_listening_rows_are_kept() {
    let mut buf = Vec::new();
    push_u32_le(&mut buf, 4);
    push_v4_row(&mut buf, 1, 0x0100, 10);
    push_v4_row(&mut buf, 2, 0x901F, 11);
    push_v4_row(&mut buf, 5, 0x0200, 12);
    push_v4_row(&mut buf, 2, 0x5000, 13);
    let keys = decode_listening(&buf, AddressFamily::V4).unwrap();
    assert_eq!(keys.len(), 2);
    assert_eq!(keys[0].pid, 11);
    assert_eq!(keys[1].pid, 13);
}

#[test]
fn decode_v6_round_trip() {
    let mut buf = Vec::new();
    push_u32_le(&mut buf, 2);
    push_v6_row(&mut buf, 2, 0x901F, 333);
    push_v6_row(&mut buf, 8, 0x3000, 444);
    let keys = decode_listening(&buf, AddressFamily::V6).unwrap();
    assert_eq!(keys.len(), 1);
    assert_eq!(keys[0].port, 8080);
    assert_eq!(keys[0].pid, 333);
}

#[test]
fn port_field_network_order_decodes_to_8080() {
    // the row stores the port in network byte order in the low 16 bits: the
    // byte sequence 0x1F 0x90 (8080 big-endian) reads back as 8080
    let mut buf = Vec::new();
    push_u32_le(&mut buf, 1);
    push_u32_le(&mut buf, 2);
    push_u32_le(&mut buf, 0);
    buf.push(0x1F);
    buf.push(0x90);
    buf.push(0);
    buf.push(0);
    push_u32_le(&mut buf, 0);
    push_u32_le(&mut buf, 0);
    push_u32_le(&mut buf, 4242);
    let keys = decode_listening(&buf, AddressFamily::V4).unwrap();
    assert_eq!(keys.len(), 1);
    assert_eq!(keys[0].port, 8080);
    assert_eq!(keys[0].pid, 4242);
}

#[test]
fn ntohs_swaps_bytes() {
    assert_eq!(ntohs(0x901F), 8080);
    assert_eq!(ntohs(8080), 0x901F);
    assert_eq!(ntohs(0), 0);
    assert_eq!(ntohs(0xFFFF), 0xFFFF);
    assert_eq!(ntohs(0x0100), 1);
}

#[test]
fn truncated_header_is_rejected() {
    let buf: Vec<u8> = Vec::new();
    assert_eq!(decode_table(&buf, AddressFamily::V4), Err(DecodeError::TruncatedHeader));
    let buf = vec![1u8, 0, 0];
    assert_eq!(decode_table(&buf, AddressFamily::V4), Err(DecodeError::TruncatedHeader));
}

#[test]
fn truncated_rows_are_rejected() {
    let mut buf = Vec::new();
    push_u32_le(&mut buf, 2);
    push_v4_row(&mut buf, 2, 0x901F, 1);
    // declares two rows but holds one
    assert_eq!(decode_table(&buf, AddressFamily::V4), Err(DecodeError::TruncatedRows));
    // a v4-sized row is too short for a v6 table
    assert_eq!(decode_table(&buf, AddressFamily::V6), Err(DecodeError::TruncatedRows));
}

#[test]
fn empty_table_decodes_to_no_rows() {
    let mut buf = Vec::new();
    push_u32_le(&mut buf, 0);
    let rows = decode_table(&buf, AddressFamily::V4).unwrap();
    assert_eq!(rows.len(), 0);
    let keys = decode_listening(&buf, AddressFamily::V6).unwrap();
    assert_eq!(keys.len(), 0);
}
