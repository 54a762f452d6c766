//! A secret held as bytes that never shows itself in text.
use vstd::prelude::*;
use crate::text::owned;

verus! {

/// Bytes of a secret. Its text form is always `[REDACTED]`.
pub struct SecretValue {
    inner: Vec<u8>,
}

impl View for SecretValue {
    type V = Seq<u8>;

    closed spec fn view(&self) -> Seq<u8> {
        self.inner@
    }
}

impl SecretValue {
    /// A secret holding a copy of `value`.
    pub fn new(value: &[u8]) -> (r: Self)
        ensures r@ == value@,
    {
        SecretValue { inner: vstd::slice::slice_to_vec(value) }
    }

    /// A secret that takes `value` over.
    pub fn owned(value: Vec<u8>) -> (r: Self)
        ensures r@ == value@,
    {
        SecretValue { inner: value }
    }

    /// The secret's bytes.
    pub fn as_bytes(&self) -> (r: &[u8])
        ensures r@ == self@,
    {
        self.inner.as_slice()
    }

    /// The number of bytes.
    pub fn len(&self) -> (r: usize)
        ensures r == self@.len(),
    {
        self.inner.len()
    }

    /// Whether there are no bytes.
    pub fn is_empty(&self) -> (r: bool)
        ensures r == (self@.len() == 0),
    {
        self.inner.len() == 0
    }

    /// The text shown for the secret wherever it is printed.
    pub fn redacted(&self) -> (r: String)
        ensures r@ == "[REDACTED]"@,
    {
        owned("[REDACTED]")
    }

    /// The debugging text of the secret, the same as its printed text.
    pub fn debug_text(&self) -> (r: String)
        ensures r@ == "[REDACTED]"@,
    {
        owned("[REDACTED]")
    }
}

impl From<Vec<u8>> for SecretValue {
    fn from(value: Vec<u8>) -> (r: Self)
        ensures
            r@ == value@,
    {
        SecretValue { inner: value }
    }
}

impl vstd::std_specs::convert::FromSpecImpl<Vec<u8>> for SecretValue {
    open spec fn obeys_from_spec() -> bool {
        true
    }

    closed spec fn from_spec(v: Vec<u8>) -> SecretValue {
        SecretValue { inner: v }
    }
}

/// A secret holding a copy of the bytes, as [`SecretValue::new`] makes it.
impl<'a> From<&'a [u8]> for SecretValue {
    fn from(value: &'a [u8]) -> (r: Self)
        ensures
            r@ == value@,
    {
        SecretValue::new(value)
    }
}

/// The conversion's bytes are stated on `from` itself; two byte vectors
/// with the same bytes are not known to be one value, so no single result
/// is claimed through `from_spec`.
impl<'a> vstd::std_specs::convert::FromSpecImpl<&'a [u8]> for SecretValue {
    open spec fn obeys_from_spec() -> bool {
        false
    }

    closed spec fn from_spec(v: &'a [u8]) -> SecretValue {
        choose|s: SecretValue| s@ == v@
    }
}

} // verus!
