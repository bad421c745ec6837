//! The last content seen of a watched file, and the rule that decides whether a
//! fresh read of it is a genuine change.
use vstd::prelude::*;

verus! {

/// A fresh read is a change when it is not empty (an empty read is a write in
/// progress) and differs, byte for byte, from what was stored.
pub open spec fn is_change(stored: Seq<u8>, fresh: Seq<u8>) -> bool {
    fresh.len() > 0 && fresh != stored
}

/// Whether two buffers hold the same bytes in the same order.
pub fn same_bytes(a: &Vec<u8>, b: &Vec<u8>) -> (r: bool)
    ensures
        r == (a@ == b@),
{
    if a.len() != b.len() {
        return false;
    }
    let mut i: usize = 0;
    while i < a.len()
        invariant
            a@.len() == b@.len(),
            i <= a@.len(),
            forall|j: int| 0 <= j < i ==> a@[j] == b@[j],
        decreases a@.len() - i,
    {
        if a[i] != b[i] {
            return false;
        }
        i += 1;
    }
    assert(a@ =~= b@);
    true
}

/// The byte content last read from one watched file.
pub struct Fingerprint {
    data: Vec<u8>,
}

impl View for Fingerprint {
    type V = Seq<u8>;

    closed spec fn view(&self) -> Seq<u8> {
        self.data@
    }
}

impl Fingerprint {
    /// Stores the content of the first read.
    pub fn new(first: Vec<u8>) -> (r: Fingerprint)
        ensures
            r@ == first@,
    {
        Fingerprint { data: first }
    }

    /// Compares a fresh read with the stored content; on a change the fresh
    /// content is stored and `true` is returned.
    pub fn observe(&mut self, fresh: Vec<u8>) -> (changed: bool)
        ensures
            changed == is_change(old(self)@, fresh@),
            final(self)@ == if changed {
                fresh@
            } else {
                old(self)@
            },
    {
        if fresh.len() == 0 || same_bytes(&self.data, &fresh) {
            false
        } else {
            self.data = fresh;
            true
        }
    }
}

} // verus!
