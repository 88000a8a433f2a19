//! Pointer provenance.
//!
//! A pointer value carries either exact attribution — the allocation it is
//! attached to together with its borrow tag — or wildcard provenance, the
//! result of casting an arbitrary integer to a pointer. A wildcard pointer
//! "acts like" any previously exposed pointer and is re-resolved on every
//! use.
//!
//! Provenance is deliberately not comparable or hashable: a wildcard might
//! stand for any exposed pointer, so generic equality over provenance values
//! would be meaningless. Any container that needs a stable key must store
//! the `(allocation id, tag)` pair instead.

use vstd::prelude::*;

verus! {

/// The opaque identifier of one memory block. Identifiers are globally
/// unique for the lifetime of a run and are never reused, even after the
/// backing memory has been freed.
#[derive(Debug, Clone, Copy, PartialEq, Eq, Hash, Structural)]
pub struct AllocId(pub u64);

/// A borrow tag: one permission generation of the aliasing discipline,
/// minted per allocation in strictly increasing order.
#[derive(Debug, Clone, Copy, PartialEq, Eq, Hash, Structural)]
pub struct BorTag(pub u64);

impl BorTag {
    /// The tag used where the aliasing discipline is disabled and the
    /// value of the tag does not matter.
    pub fn untracked() -> (r: BorTag)
        ensures
            r == (BorTag(0u64)),
    {
        BorTag(0)
    }
}

/// Pointer provenance: exact attribution, or the wildcard produced by an
/// integer-to-pointer cast.
#[derive(Debug, Clone, Copy)]
pub enum Provenance {
    /// The pointer is attached to a known allocation and carries a borrow
    /// tag of the aliasing discipline.
    Concrete {
        alloc_id: AllocId,
        /// Borrow tag of the aliasing discipline.
        tag: BorTag,
    },
    /// Produced by an integer-to-pointer cast. The pointer acts like any
    /// previously exposed concrete pointer; each use re-resolves it, and
    /// different uses may resolve to different exposed pointers.
    Wildcard,
}

impl Provenance {
    /// The allocation this provenance is attached to, if it is exact.
    pub fn get_alloc_id(self) -> (r: Option<AllocId>)
        ensures
            r == (match self {
                Provenance::Concrete { alloc_id, .. } => Some(alloc_id),
                Provenance::Wildcard => None::<AllocId>,
            }),
    {
        match self {
            Provenance::Concrete { alloc_id, .. } => Some(alloc_id),
            Provenance::Wildcard => None,
        }
    }

    /// What two optional provenances combine to: the common value if both
    /// are the same concrete provenance, the other side if one is a
    /// wildcard, and `None` — unknown — otherwise.
    pub open spec fn spec_join(left: Option<Provenance>, right: Option<Provenance>) -> Option<
        Provenance,
    > {
        if left matches Some(Provenance::Concrete { alloc_id: la, tag: lt })
            && right matches Some(Provenance::Concrete { alloc_id: ra, tag: rt }) && la == ra && lt
            == rt {
            left
        } else if left matches Some(Provenance::Wildcard) {
            right
        } else if right matches Some(Provenance::Wildcard) {
            left
        } else {
            None
        }
    }

    /// Combine the provenances of two values that flow together.
    pub fn join(left: Option<Provenance>, right: Option<Provenance>) -> (r: Option<Provenance>)
        ensures
            r == Self::spec_join(left, right),
    {
        match (left, right) {
            // If both are the *same* concrete provenance, that is the result.
            (
                Some(Provenance::Concrete { alloc_id: left_alloc, tag: left_tag }),
                Some(Provenance::Concrete { alloc_id: right_alloc, tag: right_tag }),
            ) => {
                if left_alloc.0 == right_alloc.0 && left_tag.0 == right_tag.0 {
                    left
                } else {
                    None
                }
            },
            // If one side is a wildcard, the best possible outcome is that
            // it is equal to the other one, and we use that.
            (Some(Provenance::Wildcard), o) => o,
            (o, Some(Provenance::Wildcard)) => o,
            // Otherwise, fall back to unknown.
            _ => None,
        }
    }
}

/// Joining a concrete provenance with itself gives that provenance back;
/// joining two different concrete provenances gives unknown; a wildcard
/// joined with anything gives the other side.
pub proof fn lemma_join_laws(left: Option<Provenance>, right: Option<Provenance>)
    ensures
        left matches Some(Provenance::Concrete { alloc_id, tag }) && left == right
            ==> Provenance::spec_join(left, right) == left,
        (left matches Some(Provenance::Concrete { alloc_id: la, tag: lt }) && right matches Some(
            Provenance::Concrete { alloc_id: ra, tag: rt },
        ) && !(la == ra && lt == rt)) ==> Provenance::spec_join(left, right) is None,
        left matches Some(Provenance::Wildcard) ==> Provenance::spec_join(left, right) == right,
        right matches Some(Provenance::Wildcard) && !(left matches Some(Provenance::Wildcard))
            ==> Provenance::spec_join(left, right) == left,
{
}

/// The "extra" information a resolved pointer has over a plain allocation
/// identifier: the borrow tag, or the fact that the access came through a
/// wildcard pointer.
#[derive(Debug, Clone, Copy, PartialEq, Eq, Structural)]
pub enum ProvenanceExtra {
    Concrete(BorTag),
    Wildcard,
}

impl ProvenanceExtra {
    /// Apply `f` to the borrow tag if there is one; a wildcard yields
    /// `None`.
    pub fn and_then<T, F: FnOnce(BorTag) -> Option<T>>(self, f: F) -> (r: Option<T>)
        requires
            self matches ProvenanceExtra::Concrete(tag) ==> call_requires(f, (tag,)),
        ensures
            self matches ProvenanceExtra::Concrete(tag) ==> call_ensures(f, (tag,), r),
            self is Wildcard ==> r is None,
    {
        match self {
            ProvenanceExtra::Concrete(pid) => f(pid),
            ProvenanceExtra::Wildcard => None,
        }
    }
}

} // verus!
