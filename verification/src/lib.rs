//! A conformance harness for a deterministic, canonical CBOR codec.
//!
//! The harness runs fixture test vectors against the codec under test in
//! three modes: round-trip fidelity, rejection of malformed input, and
//! rejection of values a permissive general-purpose codec can decode but
//! the canonical data model cannot express.  The test-execution protocol,
//! the Value Bridge between the two data models, and the aggregation of
//! outcomes into a report are verified; the codecs themselves are outside
//! collaborators reached through a small trusted boundary.

pub mod codec;
pub mod corpus;
pub mod executor;
pub mod hexcode;
pub mod report;
pub mod skip;
pub mod value;

use vstd::prelude::*;

verus! {

/// Equality of two byte slices, element by element.
pub fn bytes_eq(a: &[u8], b: &[u8]) -> (r: bool)
    ensures
        r == (a@ == b@),
{
    if a.len() != b.len() {
        assert(a@ != b@);
        return false;
    }
    let mut i: usize = 0;
    while i < a.len()
        invariant
            0 <= i <= a@.len(),
            a@.len() == b@.len(),
            forall|j: int| 0 <= j < i ==> a@[j] == b@[j],
        decreases a@.len() - i,
    {
        if a[i] != b[i] {
            assert(a@ != b@);
            return false;
        }
        i = i + 1;
    }
    proof {
        assert(a@ =~= b@);
    }
    true
}

} // verus!
