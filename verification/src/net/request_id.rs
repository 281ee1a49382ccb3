//! Request identifiers: a fresh ULID per request, in its text form.
use vstd::prelude::*;

verus! {

/// The alphabet of Crockford's Base32, in which ULIDs are written.
pub const ULID_ALPHABET: &'static str = "0123456789ABCDEFGHJKMNPQRSTVWXYZ";

/// `32^k`.
pub open spec fn pow32(k: nat) -> int
    decreases k,
{
    if k == 0 {
        1
    } else {
        32 * pow32((k - 1) as nat)
    }
}

/// The text of the ULID `v`: 26 Base32 digits, most significant first.
pub open spec fn ulid_text(v: u128) -> Seq<char> {
    Seq::new(26, |p: int| ULID_ALPHABET@[(v as int / pow32((25 - p) as nat)) % 32])
}

/// A new ULID (`ulid::Ulid::new`), as its 128-bit value. It depends on the
/// clock and on a random number generator, so nothing is claimed of it.
#[verifier::external_body]
fn fresh_ulid() -> (v: u128) {
    ulid::Ulid::new().0
}

/// The text of a ULID, through `ulid::Ulid`'s `Display`. Claimed: it is
/// `ulid_text` of the value, as the crate's `encode_to_array` writes it
/// (five bits per digit, the least significant digit last).
#[verifier::external_body]
fn ulid_string(v: u128) -> (s: String)
    ensures
        s@ == ulid_text(v),
{
    ulid::Ulid(v).to_string()
}

/// Makes the identifier of each incoming request.
#[derive(Clone, Copy, Default, Debug)]
pub struct MakeRequestUlid;

impl MakeRequestUlid {
    /// A fresh request identifier: the text of a new ULID.
    pub fn make_request_id(&mut self) -> (id: String)
        ensures
            exists|v: u128| id@ == ulid_text(v),
    {
        let v = fresh_ulid();
        ulid_string(v)
    }
}

} // verus!
