use portscope::fetch::{interpret_fill, interpret_sizing, SizingOutcome};
use portscope::table::AddressFamily;

#[test]
fn insufficient_buffer_requests_fill() {
    let r = interpret_sizing(AddressFamily::V4, 122, 4096);
    assert_eq!(r, SizingOutcome::Fill(4096));
}

#[test]
fn clean_first_call_means_empty_table() {
    let r = interpret_sizing(AddressFamily::V6, 0, 0);
    assert_eq!(r, SizingOutcome::EmptyTable);
}

#[test]
fn other_sizing_status_is_fatal_with_code() {
    match interpret_sizing(AddressFamily::V4, 1722, 0) {
        SizingOutcome::Fatal(m) => {
            assert_eq!(m, "Failed to get IPv4 buffer size: 1722");
        }
        other => panic!("expected a fatal outcome, got {:?}", other),
    }
    match interpret_sizing(AddressFamily::V6, 5, 0) {
        SizingOutcome::Fatal(m) => {
            assert_eq!(m, "Failed to get IPv6 buffer size: 5");
        }
        other => panic!("expected a fatal outcome, got {:?}", other),
    }
}

#[test]
fn successful_fill_is_ok() {
    assert!(interpret_fill(AddressFamily::V4, 0).is_ok());
    assert!(interpret_fill(AddressFamily::V6, 0).is_ok());
}

#[test]
fn failed_fill_reports_code() {
    assert_eq!(
        interpret_fill(AddressFamily::V4, 87),
        Err("Failed to get IPv4 TCP table: 87".to_string())
    );
    // a second "buffer too small" is propagated, not retried
    assert_eq!(
        interpret_fill(AddressFamily::V6, 122),
        Err("Failed to get IPv6 TCP table: 122".to_string())
    );
}
