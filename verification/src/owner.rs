use vstd::prelude::*;

verus! {

/// A caller identity: the raw bytes of the platform principal that issued
/// the request. Every note key is scoped to one owner, and the store only
/// ever compares owners for equality.
pub struct OwnerId {
    bytes: Vec<u8>,
}

impl View for OwnerId {
    type V = Seq<u8>;

    closed spec fn view(&self) -> Seq<u8> {
        self.bytes@
    }
}

impl OwnerId {
    /// Wraps the raw principal bytes handed in by the transport layer.
    pub fn from_bytes(bytes: Vec<u8>) -> (r: OwnerId)
        ensures
            r@ == bytes@,
    {
        OwnerId { bytes }
    }

    /// The raw principal bytes, for the transport layer to address replies.
    pub fn as_bytes(&self) -> (r: &Vec<u8>)
        ensures
            r@ == self@,
    {
        &self.bytes
    }

    /// Whether two identities name the same principal.
    pub fn same_owner(&self, other: &OwnerId) -> (r: bool)
        ensures
            r == (self@ == other@),
    {
        if self.bytes.len() != other.bytes.len() {
            proof {
                assert(self@.len() != other@.len());
            }
            return false;
        }
        let n = self.bytes.len();
        for i in 0..n
            invariant
                n == self.bytes.len() == other.bytes.len(),
                forall|j: int| 0 <= j < i ==> self@[j] == other@[j],
        {
            if self.bytes[i] != other.bytes[i] {
                return false;
            }
        }
        proof {
            assert(self@ =~= other@);
        }
        true
    }

    /// An identical copy of this identity.
    pub fn duplicate(&self) -> (r: OwnerId)
        ensures
            r@ == self@,
    {
        let mut bytes: Vec<u8> = Vec::new();
        let n = self.bytes.len();
        for i in 0..n
            invariant
                n == self.bytes.len(),
                bytes@ =~= self@.take(i as int),
        {
            bytes.push(self.bytes[i]);
        }
        proof {
            assert(bytes@ =~= self@);
        }
        OwnerId { bytes }
    }
}

} // verus!
