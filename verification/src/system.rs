use vstd::prelude::*;

verus! {

/// A unique identifier for log correlation, held as the little-endian
/// integer of a UUID.
#[derive(Clone, Copy, Debug)]
pub struct Uuid(pub u128);

/// Version 4 identifiers: the version nibble reads 4 and the variant bits
/// read 0b10, at their places in the little-endian integer.
pub open spec fn is_v4(v: u128) -> bool {
    (v >> 52u128) & 0xFu128 == 4u128 && (v >> 70u128) & 3u128 == 2u128
}

/// Calls `uuid::Uuid::new_v4` and reads the result with `to_u128_le`. The
/// crate draws 128 random bits, then sets the version nibble to 4 and the top
/// variant bits to 0b10 (`v4.rs`); `to_u128_le` reads the sixteen bytes as a
/// little-endian integer. Only these bits are stated: the rest are random.
#[verifier::external_body]
fn random_v4_le() -> (r: u128)
    ensures
        is_v4(r),
{
    uuid::Uuid::new_v4().to_u128_le()
}

/// Calls `uuid::Uuid::default` (the nil UUID, sixteen zero bytes) and reads
/// it with `to_u128_le`, which gives 0.
#[verifier::external_body]
fn nil_le() -> (r: u128)
    ensures
        r == 0,
{
    uuid::Uuid::default().to_u128_le()
}

impl Uuid {
    /// A fresh random identifier.
    pub fn new_v4() -> (r: Uuid)
        ensures
            is_v4(r.0),
    {
        Uuid(random_v4_le())
    }
}

impl Default for Uuid {
    /// The nil identifier.
    fn default() -> (r: Uuid)
        ensures
            r.0 == 0,
    {
        Uuid(nil_le())
    }
}

} // verus!
