use vstd::prelude::*;

verus! {

/// The set of identities allowed to run privileged operations; it is
/// replaced as a whole, never edited in place.
#[derive(Debug, Clone, PartialEq, Eq)]
pub struct AdminList {
    pub admins: Vec<String>,
}

impl AdminList {
    /// Whether `addr` is one of the admins.
    pub open spec fn has_admin(&self, addr: Seq<char>) -> bool {
        exists|i: int| 0 <= i < self.admins@.len() && #[trigger] self.admins@[i]@ == addr
    }

    /// Returns true if the address is a registered admin.
    pub fn is_admin(&self, addr: &String) -> (r: bool)
        ensures
            r == self.has_admin(addr@),
    {
        let mut i: usize = 0;
        while i < self.admins.len()
            invariant
                i <= self.admins.len(),
                forall|k: int| 0 <= k < i ==> #[trigger] self.admins@[k]@ != addr@,
            decreases self.admins.len() - i,
        {
            if self.admins[i] == *addr {
                return true;
            }
            i += 1;
        }
        false
    }
}

} // verus!
