//! The identifier value itself: an opaque 128-bit quantity held as its 16
//! bytes, immutable once constructed.

use vstd::prelude::*;
use crate::hex;
use crate::b64;

verus! {

/// A 128-bit identifier, stored as 16 bytes in network order. Its view is
/// that byte sequence.
#[derive(Debug)]
pub struct Uuid {
    bytes: Vec<u8>,
}

impl View for Uuid {
    type V = Seq<u8>;

    closed spec fn view(&self) -> Seq<u8> {
        self.bytes@
    }
}

impl Uuid {
    /// Every identifier holds exactly 16 bytes.
    #[verifier::type_invariant]
    pub closed spec fn wf(self) -> bool {
        self.bytes@.len() == 16
    }

    /// Wrap 16 bytes as an identifier.
    pub(crate) fn from_exact_bytes(bytes: Vec<u8>) -> (u: Uuid)
        requires
            bytes@.len() == 16,
        ensures
            u@ == bytes@,
    {
        Uuid { bytes }
    }

    /// Wrap a byte vector as an identifier; anything but 16 bytes is refused.
    pub fn from_bytes(bytes: Vec<u8>) -> (r: Option<Uuid>)
        ensures
            r is Some <==> bytes@.len() == 16,
            r matches Some(u) ==> u@ == bytes@,
    {
        if bytes.len() == 16 {
            Some(Uuid { bytes })
        } else {
            None
        }
    }

    /// The 16 bytes of the identifier, copied out.
    pub fn to_bytes(&self) -> (r: Vec<u8>)
        ensures
            r@ == self@,
            r@.len() == 16,
    {
        proof {
            use_type_invariant(self);
        }
        let mut out: Vec<u8> = Vec::new();
        let mut i: usize = 0;
        while i < 16
            invariant
                i <= 16,
                self.bytes@.len() == 16,
                out@ =~= self.bytes@.subrange(0, i as int),
            decreases 16 - i,
        {
            out.push(self.bytes[i]);
            i = i + 1;
        }
        proof {
            assert(out@ =~= self.bytes@);
        }
        out
    }

    /// The canonical hyphenated lowercase hex rendering.
    pub fn format_canonical(&self) -> (r: String)
        ensures
            r@ == hex::spec_format_canonical(self@),
    {
        proof {
            use_type_invariant(self);
        }
        hex::format_canonical_bytes(&self.bytes)
    }

    /// The 22-character URL-safe base-64 rendering.
    pub fn format_b64(&self) -> (r: String)
        ensures
            r@ == b64::spec_format_b64(self@),
    {
        proof {
            use_type_invariant(self);
        }
        b64::format_b64_bytes(&self.bytes)
    }
}

impl PartialEq for Uuid {
    /// Two identifiers are equal exactly when their bytes are.
    fn eq(&self, other: &Uuid) -> (r: bool) {
        proof {
            use_type_invariant(self);
            use_type_invariant(other);
        }
        let mut i: usize = 0;
        while i < 16
            invariant
                i <= 16,
                self.bytes@.len() == 16,
                other.bytes@.len() == 16,
                forall|j: int| 0 <= j < i ==> self.bytes@[j] == other.bytes@[j],
            decreases 16 - i,
        {
            if self.bytes[i] != other.bytes[i] {
                proof {
                    assert(self.bytes@[i as int] != other.bytes@[i as int]);
                }
                return false;
            }
            i = i + 1;
        }
        proof {
            assert(self.bytes@ =~= other.bytes@);
        }
        true
    }
}

impl vstd::std_specs::cmp::PartialEqSpecImpl for Uuid {
    open spec fn obeys_eq_spec() -> bool {
        true
    }

    open spec fn eq_spec(&self, other: &Uuid) -> bool {
        self@ == other@
    }
}

} // verus!
