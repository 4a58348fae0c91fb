use vstd::prelude::*;
use crate::principal::Principal;

verus! {

/// What a schema must say of its records for a stream of them to be scanned.
pub trait Entry: Sized {
    /// Whether the record carries `actor` as one of the actors that a scan
    /// filters on.
    spec fn names(&self, actor: Seq<char>) -> bool;

    /// The instant at which the record was appended.
    spec fn stamp(&self) -> u64;

    /// Tells whether the record names `actor`.
    fn involves(&self, actor: &Principal) -> (hit: bool)
        ensures
            hit == self.names(actor@),
    ;

    /// An exact copy of the record.
    fn duplicate(&self) -> (copy: Self)
        ensures
            copy == *self,
    ;
}

/// A record that is addressed by an identifier which the log attaches when
/// the record is appended.
pub trait Keyed: Entry {
    /// The identifier of the record.
    spec fn key(&self) -> u64;

    /// The record as the log stores it: this one with `id` and `at` attached.
    spec fn sealed(self, id: u64, at: u64) -> Self;

    /// The identifier of the record.
    fn id(&self) -> (id: u64)
        ensures
            id == self.key(),
    ;

    /// Attaches `id` and `at` to the record.
    fn seal(self, id: u64, at: u64) -> (full: Self)
        ensures
            full == self.sealed(id, at),
    ;

    /// Sealing attaches the identifier and the instant, and leaves the actors
    /// as they were.
    proof fn sealed_is_stamped(self, id: u64, at: u64)
        ensures
            self.sealed(id, at).key() == id,
            self.sealed(id, at).stamp() == at,
            forall|actor: Seq<char>| #[trigger]
                self.sealed(id, at).names(actor) == self.names(actor),
    ;
}

/// A record of a schema that declares a field which its entitled actor may
/// change after the record was appended.
pub trait Amendable: Keyed {
    /// Whether `caller` is the actor entitled to amend this record.
    spec fn entitles(&self, caller: Seq<char>) -> bool;

    /// The record after its amendment.
    spec fn amended(&self) -> Self;

    /// Tells whether `caller` is entitled to amend the record.
    fn may_amend(&self, caller: &Principal) -> (entitled: bool)
        ensures
            entitled == self.entitles(caller@),
    ;

    /// The amended form of the record.
    fn amend(&self) -> (changed: Self)
        ensures
            changed == self.amended(),
    ;

    /// An amendment changes neither the identifier nor the instant of a record.
    proof fn amended_keeps_identity(&self)
        ensures
            self.amended().key() == self.key(),
            self.amended().stamp() == self.stamp(),
    ;
}

} // verus!
