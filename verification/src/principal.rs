//! Opaque, equality-comparable identity handles.
//!
//! The hosting runtime authenticates every call and hands the library an
//! already-verified principal as a plain byte string.  The anonymous
//! sentinel (the single byte 4 in the host's identity scheme) is never a
//! valid actor: every state-mutating or privacy-sensitive operation
//! rejects it.

use vstd::prelude::*;

verus! {

/// An authenticated identity handle, as the hosting runtime encodes it.
pub struct Principal {
    pub bytes: Vec<u8>,
}

impl View for Principal {
    type V = Seq<u8>;

    open spec fn view(&self) -> Seq<u8> {
        self.bytes@
    }
}

/// The byte encoding of the anonymous sentinel.
pub open spec fn anonymous_bytes() -> Seq<u8> {
    seq![4u8]
}

/// Whether `p` is the anonymous sentinel, which is never a valid actor.
pub open spec fn is_anonymous(p: Seq<u8>) -> bool {
    p == anonymous_bytes()
}

impl Principal {
    /// Builds a principal from its runtime byte encoding.
    pub fn from_bytes(bytes: Vec<u8>) -> (r: Principal)
        ensures
            r@ == bytes@,
    {
        Principal { bytes }
    }

    /// The anonymous sentinel value.
    pub fn anonymous() -> (r: Principal)
        ensures
            is_anonymous(r@),
    {
        let mut bytes: Vec<u8> = Vec::new();
        bytes.push(4u8);
        proof {
            assert(bytes@ =~= anonymous_bytes());
        }
        Principal { bytes }
    }

    /// An independent copy of this principal.
    pub fn dup(&self) -> (r: Principal)
        ensures
            r@ == self@,
    {
        Principal { bytes: vstd::slice::slice_to_vec(self.bytes.as_slice()) }
    }

    /// Byte-wise equality of two principals.
    pub fn eq_p(&self, other: &Principal) -> (r: bool)
        ensures
            r == (self@ == other@),
    {
        if self.bytes.len() != other.bytes.len() {
            proof {
                assert(self@ != other@);
            }
            return false;
        }
        let n = self.bytes.len();
        let mut i: usize = 0;
        while i < n
            invariant
                n == self.bytes.len(),
                n == other.bytes.len(),
                0 <= i <= n,
                forall|j: int| 0 <= j < i ==> self.bytes@[j] == other.bytes@[j],
            decreases n - i,
        {
            if self.bytes[i] != other.bytes[i] {
                proof {
                    assert(self@[i as int] != other@[i as int]);
                }
                return false;
            }
            i = i + 1;
        }
        proof {
            assert(self@ =~= other@);
        }
        true
    }

    /// Whether this principal is the anonymous sentinel.
    pub fn is_anon(&self) -> (r: bool)
        ensures
            r == is_anonymous(self@),
    {
        if self.bytes.len() != 1 {
            proof {
                assert(self@ != anonymous_bytes());
            }
            return false;
        }
        let r = self.bytes[0] == 4u8;
        proof {
            if r {
                assert(self@ =~= anonymous_bytes());
            } else {
                assert(self@ != anonymous_bytes());
            }
        }
        r
    }
}

} // verus!
