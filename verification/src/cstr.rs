//! C strings.

use vstd::prelude::*;

verus! {

/// A string that can be handed to the C side: bytes of which none is the terminator.
///
/// The terminating zero byte is not part of the view.
#[derive(Clone, Copy, Debug, PartialEq, Eq)]
pub struct CStr {
    bytes: &'static [u8],
}

impl View for CStr {
    type V = Seq<u8>;

    closed spec fn view(&self) -> Seq<u8> {
        self.bytes@
    }
}

impl CStr {
    #[verifier::type_invariant]
    spec fn inv(self) -> bool {
        !self.bytes@.contains(0)
    }

    /// Makes a C string of `bytes`, or nothing if one of them is zero.
    pub fn new(bytes: &'static [u8]) -> (r: Option<CStr>)
        ensures
            r is Some <==> !bytes@.contains(0),
            r matches Some(s) ==> s@ == bytes@,
    {
        let mut i: usize = 0;
        while i < bytes.len()
            invariant
                i <= bytes@.len(),
                forall|j: int| 0 <= j < i ==> bytes@[j] != 0,
            decreases bytes@.len() - i,
        {
            if bytes[i] == 0 {
                assert(bytes@[i as int] == 0);
                return None;
            }
            i += 1;
        }
        Some(CStr { bytes })
    }

    /// Returns the bytes of the string, without the terminator.
    pub fn as_bytes(&self) -> (bytes: &'static [u8])
        ensures
            bytes@ == self@,
            !bytes@.contains(0),
    {
        proof {
            use_type_invariant(self);
        }
        self.bytes
    }
}

} // verus!
