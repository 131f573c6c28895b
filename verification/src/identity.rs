use vstd::prelude::*;

verus! {

/// A participant identity: an opaque 256-bit key of the host environment,
/// carried as four 64-bit words so that the logic can compare identities as
/// plain values. The all-zero value is reserved as the "no delegate"
/// sentinel, mirroring the host's default key.
#[derive(Clone, Copy, PartialEq, Eq, Structural, Debug)]
pub struct Identity {
    pub w0: u64,
    pub w1: u64,
    pub w2: u64,
    pub w3: u64,
}

impl Identity {
    /// The reserved all-zero value that stands for "no identity".
    pub open spec fn spec_sentinel() -> Identity {
        Identity { w0: 0, w1: 0, w2: 0, w3: 0 }
    }

    pub open spec fn is_sentinel(self) -> bool {
        self == Identity::spec_sentinel()
    }

    /// The sentinel value, for executable callers.
    pub fn sentinel() -> (r: Identity)
        ensures
            r == Identity::spec_sentinel(),
    {
        Identity { w0: 0, w1: 0, w2: 0, w3: 0 }
    }

    /// An identity out of four words.
    pub fn from_words(w0: u64, w1: u64, w2: u64, w3: u64) -> (r: Identity)
        ensures
            r == (Identity { w0, w1, w2, w3 }),
    {
        Identity { w0, w1, w2, w3 }
    }
}

} // verus!
