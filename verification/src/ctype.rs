//! The claim-type registry the core consults at creation time. The core
//! only ever asks whether a claim type is known; who registered it is kept
//! for completeness.

use vstd::prelude::*;

use crate::AttesterId;
use crate::CtypeHash;

verus! {

/// The known claim-type schemas, each with the identity that registered it.
pub struct CtypeStore {
    ctypes: Vec<(CtypeHash, AttesterId)>,
}

impl CtypeStore {
    /// Whether `hash` names a registered claim type.
    pub closed spec fn knows(&self, hash: CtypeHash) -> bool {
        exists|i: int| 0 <= i < self.ctypes@.len() && (#[trigger] self.ctypes@[i]).0 == hash
    }

    /// An empty registry: no claim type is known.
    pub fn new() -> (r: Self)
        ensures
            forall|h: CtypeHash| !r.knows(h),
    {
        CtypeStore { ctypes: Vec::new() }
    }

    /// Register a claim type under its creator.
    pub fn register(&mut self, hash: CtypeHash, creator: AttesterId)
        ensures
            final(self).knows(hash),
            forall|h: CtypeHash| h != hash ==> final(self).knows(h) == old(self).knows(h),
    {
        let ghost s = self.ctypes@;
        self.ctypes.push((hash, creator));
        proof {
            assert(self.ctypes@[s.len() as int].0 == hash);
            assert forall|h: CtypeHash| h != hash implies self.knows(h) == old(self).knows(h) by {
                if old(self).knows(h) {
                    let i = choose|i: int| 0 <= i < s.len() && (#[trigger] s[i]).0 == h;
                    assert(self.ctypes@[i].0 == h);
                }
                if self.knows(h) {
                    let i = choose|i: int|
                        0 <= i < self.ctypes@.len() && (#[trigger] self.ctypes@[i]).0 == h;
                    assert(s[i].0 == h);
                }
            }
        }
    }

    /// Whether `hash` names a registered claim type.
    pub fn contains_key(&self, hash: CtypeHash) -> (r: bool)
        ensures
            r == self.knows(hash),
    {
        let n = self.ctypes.len();
        let mut i: usize = 0;
        while i < n
            invariant
                n == self.ctypes@.len(),
                i <= n,
                forall|j: int| 0 <= j < i ==> (#[trigger] self.ctypes@[j]).0 != hash,
            decreases n - i,
        {
            if self.ctypes[i].0 == hash {
                return true;
            }
            i += 1;
        }
        false
    }
}

} // verus!
