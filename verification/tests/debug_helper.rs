use x3f::TruncatedBytes;

#[test]
fn truncated_bytes_short() {
    let bytes = [1, 2, 3, 4, 5];
    let debug_str = TruncatedBytes(&bytes).debug_string();
    assert_eq!(debug_str, "[1, 2, 3, 4, 5]");
}

#[test]
fn truncated_bytes_exact_threshold() {
    let bytes = [0u8; 16];
    let debug_str = TruncatedBytes(&bytes).debug_string();
    assert_eq!(
        debug_str,
        "[0, 0, 0, 0, 0, 0, 0, 0, 0, 0, 0, 0, 0, 0, 0, 0]"
    );
}

#[test]
fn truncated_bytes_long() {
    let bytes = [0u8; 100];
    let debug_str = TruncatedBytes(&bytes).debug_string();
    assert_eq!(
        debug_str,
        "[0, 0, 0, 0, 0, 0, 0, 0, 0, 0, 0, 0, 0, 0, 0, 0, ...] (100 bytes)"
    );
}

#[test]
fn truncated_bytes_empty() {
    let bytes: [u8; 0] = [];
    assert_eq!(TruncatedBytes(&bytes).debug_string(), "[]");
}

#[test]
fn truncated_bytes_single() {
    let bytes = [7u8];
    assert_eq!(TruncatedBytes(&bytes).debug_string(), "[7]");
}

#[test]
fn truncated_bytes_writes_every_digit() {
    let bytes = [0u8, 9, 10, 99, 100, 128, 255];
    assert_eq!(
        TruncatedBytes(&bytes).debug_string(),
        "[0, 9, 10, 99, 100, 128, 255]"
    );
}

#[test]
fn truncated_bytes_one_past_threshold() {
    let mut bytes = Vec::new();
    for i in 0..17u8 {
        bytes.push(i * 3);
    }
    assert_eq!(
        TruncatedBytes(&bytes).debug_string(),
        "[0, 3, 6, 9, 12, 15, 18, 21, 24, 27, 30, 33, 36, 39, 42, 45, ...] (17 bytes)"
    );
}

#[test]
fn truncated_bytes_agrees_with_the_standard_form_when_short() {
    let bytes = [250u8, 3, 77, 0, 19, 200];
    assert_eq!(
        TruncatedBytes(&bytes).debug_string(),
        format!("{:?}", &bytes[..])
    );
}

#[test]
fn truncated_bytes_long_total_has_all_its_digits() {
    let bytes = vec![1u8; 12345];
    assert_eq!(
        TruncatedBytes(&bytes).debug_string(),
        "[1, 1, 1, 1, 1, 1, 1, 1, 1, 1, 1, 1, 1, 1, 1, 1, ...] (12345 bytes)"
    );
}
