use vstd::prelude::*;

verus! {

/// An actor identity that the host can authenticate, held as the text of its
/// canonical key. Two principals are the same actor exactly when their keys
/// read the same.
#[derive(Debug, PartialEq, Eq)]
pub struct Principal {
    key: String,
}

impl View for Principal {
    type V = Seq<char>;

    closed spec fn view(&self) -> Seq<char> {
        self.key@
    }
}

impl Principal {
    /// The principal whose canonical key is `key`.
    pub fn new(key: String) -> (p: Principal)
        ensures
            p@ == key@,
    {
        Principal { key }
    }

    /// The canonical key.
    pub fn key(&self) -> (k: &String)
        ensures
            k@ == self@,
    {
        &self.key
    }

    /// Whether `other` is the same actor.
    pub fn same_as(&self, other: &Principal) -> (same: bool)
        ensures
            same == (self@ == other@),
    {
        self.key == other.key
    }
}

impl Clone for Principal {
    fn clone(&self) -> (p: Principal)
        ensures
            p == *self,
    {
        Principal { key: self.key.clone() }
    }
}

} // verus!
