use vstd::prelude::*;

verus! {

/// The identity of an account or a contract, held as the ASCII bytes of
/// its 56-character strkey (`G...` for accounts, `C...` for contracts).
#[derive(Clone, Copy, Debug, PartialEq, Eq)]
pub struct AccountId {
    pub strkey: [u8; 56],
}

impl AccountId {
    /// Wraps the bytes of a strkey.
    pub fn new(strkey: [u8; 56]) -> (r: AccountId)
        ensures
            r.strkey == strkey,
    {
        AccountId { strkey }
    }

    /// Whether `self` and `other` name the same account.
    pub fn same_as(&self, other: &AccountId) -> (r: bool)
        ensures
            r == (*self == *other),
    {
        let mut i: usize = 0;
        while i < 56
            invariant
                i <= 56,
                forall|j: int| 0 <= j < i ==> self.strkey[j] == other.strkey[j],
            decreases 56 - i,
        {
            if self.strkey[i] != other.strkey[i] {
                assert(!(self.strkey =~= other.strkey));
                return false;
            }
            i = i + 1;
        }
        assert(self.strkey =~= other.strkey);
        true
    }
}

} // verus!
