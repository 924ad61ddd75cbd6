use x3f::{DirectoryPointerRef, ExtendedHeaderRef, HeaderRef, X3FError};

fn counting(n: usize) -> Vec<u8> {
    let mut bytes = Vec::new();
    for i in 0..n {
        bytes.push((i % 251) as u8);
    }
    bytes
}

#[test]
fn region_lengths_are_fixed() {
    assert_eq!(HeaderRef::LENGTH, 40);
    assert_eq!(ExtendedHeaderRef::LENGTH, 192);
    assert_eq!(DirectoryPointerRef::LENGTH, 4);
}

#[test]
fn header_ref_returns_correct_slices() {
    let bytes = counting(40);
    let header = HeaderRef::from_bytes(&bytes).expect("40 bytes");
    assert_eq!(header.as_bytes(), &bytes[..]);
    assert_eq!(header.file_type_identifier(), &bytes[0..4]);
    assert_eq!(header.file_format_version(), &bytes[4..8]);
    assert_eq!(header.unique_identifier(), &bytes[8..24]);
    assert_eq!(header.mark_bits(), &bytes[24..28]);
    assert_eq!(header.image_columns(), &bytes[28..32]);
    assert_eq!(header.image_rows(), &bytes[32..36]);
    assert_eq!(header.rotation(), &bytes[36..40]);
}

#[test]
fn header_ref_covers_only_its_40_bytes() {
    let bytes = counting(100);
    let header = HeaderRef::from_bytes(&bytes).expect("long enough");
    assert_eq!(header.as_bytes(), &bytes[0..40]);
}

#[test]
fn header_ref_rejects_short_input() {
    let bytes = counting(39);
    assert!(matches!(HeaderRef::from_bytes(&bytes), Err(X3FError::TooShort)));
    let none: Vec<u8> = Vec::new();
    assert!(matches!(HeaderRef::from_bytes(&none), Err(X3FError::TooShort)));
}

#[test]
fn header_ref_does_not_judge_rotation() {
    let mut bytes = counting(40);
    bytes[36..40].copy_from_slice(&45u32.to_le_bytes());
    let header = HeaderRef::from_bytes(&bytes).expect("40 bytes");
    assert_eq!(header.rotation(), &45u32.to_le_bytes()[..]);
}

#[test]
fn extended_header_ref_returns_correct_slices() {
    let bytes = counting(192);
    let extended = ExtendedHeaderRef::from_bytes(&bytes).expect("192 bytes");
    assert_eq!(extended.as_bytes(), &bytes[..]);
    assert_eq!(extended.white_balance_label_string(), &bytes[0..32]);
    assert_eq!(extended.extended_data_types(), &bytes[32..64]);
    assert_eq!(extended.extended_data(), &bytes[64..192]);
}

#[test]
fn extended_header_ref_covers_only_its_192_bytes() {
    let bytes = counting(300);
    let extended = ExtendedHeaderRef::from_bytes(&bytes).expect("long enough");
    assert_eq!(extended.as_bytes(), &bytes[0..192]);
}

#[test]
fn extended_header_ref_rejects_short_input() {
    let bytes = counting(191);
    assert!(matches!(
        ExtendedHeaderRef::from_bytes(&bytes),
        Err(X3FError::TooShort)
    ));
}

#[test]
fn directory_pointer_ref_returns_correct_slices() {
    let bytes = counting(4);
    let ptr = DirectoryPointerRef::from_bytes(&bytes).expect("4 bytes");
    assert_eq!(ptr.as_bytes(), &bytes[..]);
    assert_eq!(ptr.offset(), &bytes[0..4]);
}

#[test]
fn directory_pointer_ref_covers_only_its_4_bytes() {
    let bytes = counting(10);
    let ptr = DirectoryPointerRef::from_bytes(&bytes).expect("long enough");
    assert_eq!(ptr.as_bytes(), &bytes[0..4]);
}

#[test]
fn directory_pointer_ref_rejects_short_input() {
    let bytes = counting(3);
    assert!(matches!(
        DirectoryPointerRef::from_bytes(&bytes),
        Err(X3FError::TooShort)
    ));
}
