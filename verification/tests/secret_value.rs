use greentic_operator::secret_value::SecretValue;

#[test]
fn debug_and_display_are_redacted() {
    let value = SecretValue::new(b"super-secret");
    assert_eq!(value.redacted(), "[REDACTED]");
    assert_eq!(value.debug_text(), "[REDACTED]");
}

#[test]
fn owned_and_borrowed_values_expose_bytes_and_lengths() {
    let borrowed = SecretValue::new(b"abc");
    assert_eq!(borrowed.as_bytes(), b"abc");
    assert_eq!(borrowed.len(), 3);
    assert!(!borrowed.is_empty());

    let owned = SecretValue::owned(Vec::new());
    assert!(owned.is_empty());
    assert_eq!(owned.len(), 0);
    assert_eq!(owned.as_bytes(), b"");
}

#[test]
fn from_vec_takes_the_bytes() {
    let v: SecretValue = SecretValue::from(vec![1u8, 2, 3]);
    assert_eq!(v.as_bytes(), &[1u8, 2, 3]);
}

#[test]
fn from_slice_copies_the_bytes() {
    let bytes = [4u8, 5];
    let v: SecretValue = SecretValue::from(&bytes[..]);
    assert_eq!(v.as_bytes(), &[4u8, 5]);
    assert_eq!(v.len(), 2);
}
