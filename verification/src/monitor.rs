//! The aliasing monitor: a capability-set discipline over borrow tags.
//!
//! Every allocation carries a set of tag entries. A tag entry grants read
//! access unless it has been disabled, and write access only while it is
//! unique. Writing through a tag disables every tag minted after it, the
//! way a write through a reborrow's ancestor ends the reborrow. A
//! protected entry makes any access through a different tag a violation
//! for the duration of the protection, and forbids deallocation outright.
//!
//! Tags are minted from one global counter, so the tags of one allocation
//! strictly increase over its lifetime. Accesses through wildcard
//! provenance are allowed conservatively: a wildcard may stand for any
//! exposed tag, so the monitor overapproximates and lets them pass.
//!
//! The tag garbage collector drops entries whose tags no live pointer
//! carries. Protected entries are always kept, and for every kept tag the
//! monitor's judgment of any access is exactly what it was before the
//! pass.

use vstd::prelude::*;
use crate::provenance::{BorTag, ProvenanceExtra};

verus! {

/// What one tag entry grants.
#[derive(Debug, Clone, Copy, PartialEq, Eq, Structural)]
pub enum Permission {
    /// Grants reads and writes.
    Unique,
    /// Grants reads only.
    SharedReadOnly,
    /// Grants nothing; the tag's permission has ended.
    Disabled,
}

/// One minted tag of an allocation, with its current grant.
#[derive(Debug, Clone, Copy, PartialEq, Eq, Structural)]
pub struct TagEntry {
    pub tag: BorTag,
    pub perm: Permission,
    /// While set, any access through a different tag is a violation.
    pub protected: bool,
}

/// The monitor's global state: the tag mint.
pub struct GlobalState {
    /// The next tag to mint; strictly above every tag minted so far.
    pub next_tag: u64,
}

/// The monitor's per-allocation state.
pub struct AllocState {
    /// The live bookkeeping: one entry per tag the collector has kept.
    pub entries: Vec<TagEntry>,
    /// The tag the allocation's base pointer carries.
    pub base_tag: BorTag,
    /// Every tag ever minted for this allocation, in minting order.
    pub history: Ghost<Seq<u64>>,
}

/// The monitor's per-frame state: the tags this frame protects.
pub struct FrameState {
    /// Pairs of (allocation id as index, tag) protected for the duration
    /// of the call.
    pub protected_tags: Vec<(u64, BorTag)>,
}

impl GlobalState {
    pub fn new() -> (r: GlobalState)
        ensures
            r.next_tag == 1,
    {
        GlobalState { next_tag: 1 }
    }
}

impl AllocState {
    /// Well-formedness against the mint: tags are unique, below the mint's
    /// next tag, all minted tags are on record, and the record strictly
    /// increases.
    pub open spec fn wf(self, next_tag: u64) -> bool {
        &&& forall|i: int, j: int|
            0 <= i < j < self.entries@.len() ==> self.entries@[i].tag.0 != self.entries@[j].tag.0
        &&& forall|i: int|
            0 <= i < self.entries@.len() ==> self.history@.contains(
                #[trigger] self.entries@[i].tag.0,
            )
        &&& forall|i: int| 0 <= i < self.history@.len() ==> #[trigger] self.history@[i] < next_tag
        &&& forall|i: int, j: int|
            0 <= i < j < self.history@.len() ==> self.history@[i] < self.history@[j]
    }

    /// The tag has an entry that still grants reads.
    pub open spec fn grants_read(self, t: u64) -> bool {
        exists|i: int|
            0 <= i < self.entries@.len() && (#[trigger] self.entries@[i]).tag.0 == t
                && self.entries@[i].perm != Permission::Disabled
    }

    /// The tag has an entry that grants writes.
    pub open spec fn grants_write(self, t: u64) -> bool {
        exists|i: int|
            0 <= i < self.entries@.len() && (#[trigger] self.entries@[i]).tag.0 == t
                && self.entries@[i].perm == Permission::Unique
    }

    /// Some other tag is protected and still active, so an access through
    /// `t` is a violation.
    pub open spec fn protector_violation(self, t: u64) -> bool {
        exists|i: int|
            0 <= i < self.entries@.len() && (#[trigger] self.entries@[i]).protected
                && self.entries@[i].perm != Permission::Disabled && self.entries@[i].tag.0 != t
    }

    /// Some tag is protected and still active, so deallocation is a
    /// violation.
    pub open spec fn any_active_protector(self) -> bool {
        exists|i: int|
            0 <= i < self.entries@.len() && (#[trigger] self.entries@[i]).protected
                && self.entries@[i].perm != Permission::Disabled
    }

    /// A read through `t` is permitted.
    pub open spec fn read_ok(self, t: u64) -> bool {
        self.grants_read(t) && !self.protector_violation(t)
    }

    /// A write through `t` is permitted.
    pub open spec fn write_ok(self, t: u64) -> bool {
        self.grants_write(t) && !self.protector_violation(t)
    }

    /// Initial monitor state for a new allocation: one unique base tag,
    /// minted now.
    pub fn new_allocation(global: &mut GlobalState) -> (r: AllocState)
        requires
            old(global).next_tag < u64::MAX,
        ensures
            final(global).next_tag == old(global).next_tag + 1,
            r.base_tag.0 == old(global).next_tag,
            r.entries@ =~= seq![
                TagEntry {
                    tag: BorTag(old(global).next_tag),
                    perm: Permission::Unique,
                    protected: false,
                },
            ],
            r.history@ =~= seq![old(global).next_tag],
            r.wf(final(global).next_tag),
    {
        let tag = BorTag(global.next_tag);
        global.next_tag = global.next_tag + 1;
        let mut entries: Vec<TagEntry> = Vec::new();
        entries.push(TagEntry { tag, perm: Permission::Unique, protected: false });
        let ghost hist: Seq<u64> = seq![tag.0];
        proof {
            assert(hist.contains(tag.0)) by {
                assert(hist[0] == tag.0);
            }
        }
        AllocState { entries, base_tag: tag, history: Ghost(hist) }
    }

    /// Find the index of the entry carrying `t`, if any.
    fn find_entry(&self, t: u64) -> (r: Option<usize>)
        ensures
            r matches Some(i) ==> i < self.entries@.len() && self.entries@[i as int].tag.0 == t,
            r is None ==> forall|i: int|
                0 <= i < self.entries@.len() ==> (#[trigger] self.entries@[i]).tag.0 != t,
    {
        let mut idx: usize = 0;
        while idx < self.entries.len()
            invariant
                idx <= self.entries@.len(),
                forall|i: int|
                    0 <= i < idx ==> (#[trigger] self.entries@[i]).tag.0 != t,
            decreases self.entries@.len() - idx,
        {
            if self.entries[idx].tag.0 == t {
                return Some(idx);
            }
            idx += 1;
        }
        None
    }

    /// Whether some protected entry other than `t` is still active.
    fn has_protector_violation(&self, t: u64) -> (r: bool)
        ensures
            r == self.protector_violation(t),
    {
        let mut idx: usize = 0;
        while idx < self.entries.len()
            invariant
                idx <= self.entries@.len(),
                forall|i: int|
                    0 <= i < idx ==> !((#[trigger] self.entries@[i]).protected
                        && self.entries@[i].perm != Permission::Disabled && self.entries@[i].tag.0
                        != t),
            decreases self.entries@.len() - idx,
        {
            let e = self.entries[idx];
            if e.protected && !matches!(e.perm, Permission::Disabled) && e.tag.0 != t {
                return true;
            }
            idx += 1;
        }
        false
    }

    /// The entries carry pairwise distinct tags. Every well-formed state
    /// has this, and every operation preserves it.
    pub open spec fn tags_unique(self) -> bool {
        forall|i: int, j: int|
            0 <= i < j < self.entries@.len() ==> self.entries@[i].tag.0 != self.entries@[j].tag.0
    }

    /// Check a read through the given provenance. A wildcard access is
    /// allowed conservatively: the wildcard may act as any exposed tag.
    /// The state never changes on a read.
    pub fn before_read(&self, tag: ProvenanceExtra) -> (r: Result<(), BorTag>)
        requires
            self.tags_unique(),
        ensures
            tag matches ProvenanceExtra::Concrete(t) ==> ((r is Ok) == self.read_ok(t.0)),
            tag is Wildcard ==> r is Ok,
            r matches Err(t) ==> tag == ProvenanceExtra::Concrete(t),
    {
        match tag {
            ProvenanceExtra::Wildcard => Ok(()),
            ProvenanceExtra::Concrete(t) => {
                match self.find_entry(t.0) {
                    Some(i) => {
                        if matches!(self.entries[i].perm, Permission::Disabled) {
                            // the entry for this tag is the only one, and
                            // it grants nothing
                            proof {
                                assert forall|j: int|
                                    0 <= j < self.entries@.len() && (
                                    #[trigger] self.entries@[j]).tag.0 == t.0 implies j
                                    == i by {
                                    if j < i {
                                        assert(self.entries@[j].tag.0 != self.entries@[
                                            i as int].tag.0);
                                    } else if j > i {
                                        assert(self.entries@[i as int].tag.0
                                            != self.entries@[j].tag.0);
                                    }
                                }
                            }
                            Err(t)
                        } else if self.has_protector_violation(t.0) {
                            Err(t)
                        } else {
                            Ok(())
                        }
                    },
                    None => Err(t),
                }
            },
        }
    }

    /// Whether a write through the given provenance would be permitted,
    /// without changing anything.
    pub fn write_allowed(&self, tag: ProvenanceExtra) -> (r: bool)
        requires
            self.tags_unique(),
        ensures
            r == (match tag {
                ProvenanceExtra::Concrete(t) => self.write_ok(t.0),
                ProvenanceExtra::Wildcard => true,
            }),
    {
        match tag {
            ProvenanceExtra::Wildcard => true,
            ProvenanceExtra::Concrete(t) => {
                let granted = match self.find_entry(t.0) {
                    Some(i) => {
                        proof {
                            assert forall|j: int|
                                0 <= j < self.entries@.len() && (
                                #[trigger] self.entries@[j]).tag.0 == t.0 implies j == i by {
                                if j < i {
                                    assert(self.entries@[j].tag.0 != self.entries@[
                                        i as int].tag.0);
                                } else if j > i {
                                    assert(self.entries@[i as int].tag.0 != self.entries@[j].tag.0);
                                }
                            }
                        }
                        matches!(self.entries[i].perm, Permission::Unique)
                    },
                    None => false,
                };
                granted && !self.has_protector_violation(t.0)
            },
        }
    }

    /// Check a write through the given provenance and, if it is permitted,
    /// end the permission of every tag minted after the writing one. On a
    /// violation the state is unchanged.
    pub fn before_write(&mut self, tag: ProvenanceExtra) -> (r: Result<(), BorTag>)
        requires
            old(self).tags_unique(),
        ensures
            tag matches ProvenanceExtra::Concrete(t) ==> ((r is Ok) == old(self).write_ok(t.0)),
            tag is Wildcard ==> r is Ok,
            r matches Err(t) ==> tag == ProvenanceExtra::Concrete(t),
            r is Err ==> *final(self) == *old(self),
            tag is Wildcard ==> *final(self) == *old(self),
            tag matches ProvenanceExtra::Concrete(t) ==> (r is Ok ==> (
                final(self).entries@.len() == old(self).entries@.len()
                && (forall|i: int|
                    0 <= i < old(self).entries@.len()
                    ==> #[trigger] final(self).entries@[i] == (
                        if old(self).entries@[i].tag.0 > t.0 {
                            TagEntry { perm: Permission::Disabled, ..old(self).entries@[i] }
                        } else {
                            old(self).entries@[i]
                        }))
                && final(self).base_tag == old(self).base_tag
                && final(self).history == old(self).history)),
    {
        match tag {
            ProvenanceExtra::Wildcard => Ok(()),
            ProvenanceExtra::Concrete(t) => {
                let granted = match self.find_entry(t.0) {
                    Some(i) => {
                        proof {
                            assert forall|j: int|
                                0 <= j < self.entries@.len() && (
                                #[trigger] self.entries@[j]).tag.0 == t.0 implies j == i by {
                                if j < i {
                                    assert(self.entries@[j].tag.0 != self.entries@[
                                        i as int].tag.0);
                                } else if j > i {
                                    assert(self.entries@[i as int].tag.0 != self.entries@[j].tag.0);
                                }
                            }
                        }
                        matches!(self.entries[i].perm, Permission::Unique)
                    },
                    None => false,
                };
                if !granted {
                    return Err(t);
                }
                if self.has_protector_violation(t.0) {
                    return Err(t);
                }
                let mut idx: usize = 0;
                while idx < self.entries.len()
                    invariant
                        idx <= self.entries@.len(),
                        self.entries@.len() == old(self).entries@.len(),
                        self.base_tag == old(self).base_tag,
                        self.history == old(self).history,
                        forall|i: int|
                            idx <= i < self.entries@.len() ==> #[trigger] self.entries@[i] == old(self).entries@[i],
                        forall|i: int|
                            0 <= i < idx ==> #[trigger] self.entries@[i] == (if old(self).entries@[i].tag.0 > t.0 {
                                TagEntry { perm: Permission::Disabled, ..old(self).entries@[i] }
                            } else {
                                old(self).entries@[i]
                            }),
                    decreases self.entries@.len() - idx,
                {
                    let e = self.entries[idx];
                    if e.tag.0 > t.0 {
                        self.entries.set(
                            idx,
                            TagEntry { tag: e.tag, perm: Permission::Disabled, protected: e.protected },
                        );
                    }
                    idx += 1;
                }
                Ok(())
            },
        }
    }

    /// Whether any protected entry is still active.
    fn has_any_active_protector(&self) -> (r: bool)
        ensures
            r == self.any_active_protector(),
    {
        let mut idx: usize = 0;
        while idx < self.entries.len()
            invariant
                idx <= self.entries@.len(),
                forall|i: int|
                    0 <= i < idx ==> !((#[trigger] self.entries@[i]).protected
                        && self.entries@[i].perm != Permission::Disabled),
            decreases self.entries@.len() - idx,
        {
            let e = self.entries[idx];
            if e.protected && !matches!(e.perm, Permission::Disabled) {
                return true;
            }
            idx += 1;
        }
        false
    }

    /// Check the deallocation of the whole allocation: the deallocating
    /// tag must grant a write, and no protector may be active — freeing
    /// protected memory is a violation even through the protected tag
    /// itself. The state is unchanged; on success the allocation, and
    /// this state with it, is retired by the caller.
    pub fn before_deallocation(&self, tag: ProvenanceExtra) -> (r: Result<(), BorTag>)
        requires
            self.tags_unique(),
        ensures
            tag matches ProvenanceExtra::Concrete(t) ==> ((r is Ok) == (self.grants_write(t.0)
                && !self.any_active_protector())),
            tag is Wildcard ==> ((r is Ok) == !self.any_active_protector()),
            r matches Err(t) ==> (tag == ProvenanceExtra::Concrete(t) || tag is Wildcard),
    {
        match tag {
            ProvenanceExtra::Wildcard => {
                if self.has_any_active_protector() {
                    Err(BorTag(0))
                } else {
                    Ok(())
                }
            },
            ProvenanceExtra::Concrete(t) => {
                let granted = match self.find_entry(t.0) {
                    Some(i) => {
                        proof {
                            assert forall|j: int|
                                0 <= j < self.entries@.len() && (
                                #[trigger] self.entries@[j]).tag.0 == t.0 implies j == i by {
                                if j < i {
                                    assert(self.entries@[j].tag.0 != self.entries@[
                                        i as int].tag.0);
                                } else if j > i {
                                    assert(self.entries@[i as int].tag.0 != self.entries@[j].tag.0);
                                }
                            }
                        }
                        matches!(self.entries[i].perm, Permission::Unique)
                    },
                    None => false,
                };
                if !granted {
                    return Err(t);
                }
                if self.has_any_active_protector() {
                    return Err(t);
                }
                Ok(())
            },
        }
    }

    /// Mint a fresh tag for this allocation — a retag: a new permission
    /// generation derived at a designated program point. The new tag is
    /// strictly above every tag ever minted for this allocation.
    pub fn retag(&mut self, global: &mut GlobalState, perm: Permission) -> (r: BorTag)
        requires
            old(global).next_tag < u64::MAX,
            perm != Permission::Disabled,
            old(self).wf(old(global).next_tag),
        ensures
            r.0 == old(global).next_tag,
            final(global).next_tag == old(global).next_tag + 1,
            final(self).entries@ =~= old(self).entries@.push(
                TagEntry { tag: r, perm, protected: false },
            ),
            final(self).history@ =~= old(self).history@.push(r.0),
            final(self).base_tag == old(self).base_tag,
            final(self).wf(final(global).next_tag),
            // the fresh tag is strictly above the whole history
            forall|i: int|
                0 <= i < old(self).history@.len() ==> #[trigger] old(self).history@[i] < r.0,
    {
        let tag = BorTag(global.next_tag);
        global.next_tag = global.next_tag + 1;
        self.entries.push(TagEntry { tag, perm, protected: false });
        proof {
            self.history@ = self.history@.push(tag.0);
            assert forall|i: int|
                0 <= i < self.entries@.len() implies self.history@.contains(
                #[trigger] self.entries@[i].tag.0,
            ) by {
                if i < self.entries@.len() - 1 {
                    let k = choose|k: int|
                        0 <= k < old(self).history@.len() && old(self).history@[k]
                            == old(self).entries@[i].tag.0;
                    assert(self.history@[k] == self.entries@[i].tag.0);
                } else {
                    assert(self.history@[self.history@.len() - 1] == tag.0);
                }
            }
        }
        tag
    }

    /// Mark the entry of `t` protected: for the duration, any access
    /// through a different tag is a violation. Fails if the tag has no
    /// active entry.
    pub fn protect(&mut self, t: BorTag) -> (r: Result<(), BorTag>)
        requires
            old(self).tags_unique(),
        ensures
            (r is Ok) == old(self).grants_read(t.0),
            r is Err ==> *final(self) == *old(self),
            r is Ok ==> {
                &&& final(self).entries@.len() == old(self).entries@.len()
                &&& forall|i: int|
                    0 <= i < old(self).entries@.len() ==> #[trigger] final(self).entries@[i] == (
                    if old(self).entries@[i].tag.0 == t.0 {
                        TagEntry { protected: true, ..old(self).entries@[i] }
                    } else {
                        old(self).entries@[i]
                    })
                &&& final(self).base_tag == old(self).base_tag
                &&& final(self).history == old(self).history
            },
            r matches Err(e) ==> e == t,
    {
        match self.find_entry(t.0) {
            Some(i) => {
                proof {
                    assert forall|j: int|
                        0 <= j < self.entries@.len() && (#[trigger] self.entries@[j]).tag.0 == t.0
                        implies j == i by {
                        if j < i {
                            assert(self.entries@[j].tag.0 != self.entries@[i as int].tag.0);
                        } else if j > i {
                            assert(self.entries@[i as int].tag.0 != self.entries@[j].tag.0);
                        }
                    }
                }
                let e = self.entries[i];
                if matches!(e.perm, Permission::Disabled) {
                    return Err(t);
                }
                self.entries.set(i, TagEntry { tag: e.tag, perm: e.perm, protected: true });
                Ok(())
            },
            None => Err(t),
        }
    }

    /// End the protection of `t` when the protecting frame is popped.
    pub fn unprotect(&mut self, t: BorTag)
        ensures
            final(self).entries@.len() == old(self).entries@.len(),
            forall|i: int|
                0 <= i < old(self).entries@.len() ==> #[trigger] final(self).entries@[i] == (if old(self).entries@[i].tag.0 == t.0 {
                    TagEntry { protected: false, ..old(self).entries@[i] }
                } else {
                    old(self).entries@[i]
                }),
            final(self).base_tag == old(self).base_tag,
            final(self).history == old(self).history,
    {
        let mut idx: usize = 0;
        while idx < self.entries.len()
            invariant
                idx <= self.entries@.len(),
                self.entries@.len() == old(self).entries@.len(),
                self.base_tag == old(self).base_tag,
                self.history == old(self).history,
                forall|i: int|
                    idx <= i < self.entries@.len() ==> #[trigger] self.entries@[i] == old(self).entries@[i],
                forall|i: int|
                    0 <= i < idx ==> #[trigger] self.entries@[i] == (if old(self).entries@[i].tag.0 == t.0 {
                        TagEntry { protected: false, ..old(self).entries@[i] }
                    } else {
                        old(self).entries@[i]
                    }),
            decreases self.entries@.len() - idx,
        {
            let e = self.entries[idx];
            if e.tag.0 == t.0 {
                self.entries.set(
                    idx,
                    TagEntry { tag: e.tag, perm: e.perm, protected: false },
                );
            }
            idx += 1;
        }
    }

    /// One garbage-collection pass over this allocation's bookkeeping:
    /// drop every entry whose tag is neither reachable — listed in
    /// `keep` — nor protected. This is an optimization, never a semantic
    /// operation: `lemma_gc_preserves_reachable_judgments` shows that for
    /// every kept tag the monitor judges every access exactly as before.
    pub fn retain_tags(&mut self, keep: &Vec<u64>)
        requires
            old(self).tags_unique(),
        ensures
            // every surviving entry was there before
            forall|i: int|
                0 <= i < final(self).entries@.len() ==> old(self).entries@.contains(
                    #[trigger] final(self).entries@[i],
                ),
            // every reachable or protected entry survives
            forall|i: int|
                0 <= i < old(self).entries@.len() && (keep@.contains(
                    (#[trigger] old(self).entries@[i]).tag.0,
                ) || old(self).entries@[i].protected) ==> final(self).entries@.contains(
                    old(self).entries@[i],
                ),
            final(self).base_tag == old(self).base_tag,
            final(self).history == old(self).history,
            final(self).tags_unique(),
    {
        let mut out: Vec<TagEntry> = Vec::new();
        let mut idx: usize = 0;
        while idx < self.entries.len()
            invariant
                self.entries@ == old(self).entries@,
                self.base_tag == old(self).base_tag,
                self.history == old(self).history,
                idx <= self.entries@.len(),
                self.tags_unique(),
                forall|i: int|
                    0 <= i < out@.len() ==> exists|j: int|
                        0 <= j < idx && self.entries@[j] == #[trigger] out@[i],
                forall|i: int|
                    0 <= i < idx && (keep@.contains((#[trigger] self.entries@[i]).tag.0)
                        || self.entries@[i].protected) ==> out@.contains(self.entries@[i]),
                forall|i: int, j: int|
                    0 <= i < j < out@.len() ==> out@[i].tag.0 != out@[j].tag.0,
            decreases self.entries@.len() - idx,
        {
            let e = self.entries[idx];
            if e.protected || contains_u64(keep, e.tag.0) {
                let ghost out_pre = out@;
                proof {
                    assert forall|i: int| 0 <= i < out@.len() implies out@[i].tag.0 != e.tag.0 by {
                        let j = choose|j: int| 0 <= j < idx && self.entries@[j] == out@[i];
                        assert(self.entries@[j].tag.0 != self.entries@[idx as int].tag.0);
                    }
                }
                out.push(e);
                proof {
                    assert(out@ =~= out_pre.push(e));
                    assert(out@[out@.len() - 1] == self.entries@[idx as int]);
                    assert forall|i: int|
                        0 <= i < idx + 1 && (keep@.contains(
                            (#[trigger] self.entries@[i]).tag.0,
                        ) || self.entries@[i].protected) implies out@.contains(
                        self.entries@[i],
                    ) by {
                        if i < idx {
                            let k = choose|k: int|
                                0 <= k < out_pre.len() && out_pre[k] == self.entries@[i];
                            assert(out@[k] == self.entries@[i]);
                        } else {
                            assert(out@[out@.len() - 1] == self.entries@[i]);
                        }
                    }
                }
            }
            idx += 1;
        }
        self.entries = out;
        proof {
            assert forall|i: int|
                0 <= i < self.entries@.len() implies old(self).entries@.contains(
                #[trigger] self.entries@[i],
            ) by {
                let j = choose|j: int|
                    0 <= j < old(self).entries@.len() && old(self).entries@[j]
                        == self.entries@[i];
                assert(old(self).entries@[j] == self.entries@[i]);
            }
        }
    }
}

/// A garbage-collection pass keeps the allocation state well formed: the
/// surviving entries are drawn from the old ones, so their tags stay
/// unique, on record, and below the mint.
pub proof fn lemma_retain_preserves_wf(pre: AllocState, post: AllocState, next_tag: u64)
    requires
        pre.wf(next_tag),
        post.tags_unique(),
        post.history == pre.history,
        forall|i: int|
            0 <= i < post.entries@.len() ==> pre.entries@.contains(#[trigger] post.entries@[i]),
    ensures
        post.wf(next_tag),
{
    assert forall|i: int|
        0 <= i < post.entries@.len() implies post.history@.contains(
        #[trigger] post.entries@[i].tag.0,
    ) by {
        let j = choose|j: int|
            0 <= j < pre.entries@.len() && pre.entries@[j] == post.entries@[i];
        assert(pre.history@.contains(pre.entries@[j].tag.0));
    }
}

/// Whether the vector contains the value.
fn contains_u64(v: &Vec<u64>, x: u64) -> (r: bool)
    ensures
        r == v@.contains(x),
{
    let mut idx: usize = 0;
    while idx < v.len()
        invariant
            idx <= v@.len(),
            forall|i: int| 0 <= i < idx ==> v@[i] != x,
        decreases v@.len() - idx,
    {
        if v[idx] == x {
            proof {
                assert(v@[idx as int] == x);
            }
            return true;
        }
        idx += 1;
    }
    false
}

impl FrameState {
    /// Fresh per-frame state: the frame protects nothing yet.
    pub fn new_frame() -> (r: FrameState)
        ensures
            r.protected_tags@ =~= Seq::<(u64, BorTag)>::empty(),
    {
        FrameState { protected_tags: Vec::new() }
    }
}

/// Tags minted by the monitor for one allocation strictly increase over
/// that allocation's lifetime: the minting record of a well-formed state
/// is strictly sorted.
pub proof fn lemma_tags_strictly_increase(s: AllocState, next_tag: u64, i: int, j: int)
    requires
        s.wf(next_tag),
        0 <= i < j < s.history@.len(),
    ensures
        s.history@[i] < s.history@[j],
{
}

/// A garbage-collection pass never invalidates a reachable tag: provided
/// every protected entry is kept — the collector always keeps them — the
/// monitor's judgment of reads, writes and deallocations through any kept
/// tag is exactly what it was before the pass.
pub proof fn lemma_gc_preserves_reachable_judgments(
    pre: AllocState,
    post: AllocState,
    keep: Seq<u64>,
    t: u64,
)
    requires
        pre.tags_unique(),
        keep.contains(t),
        // what `retain_tags` ensures
        forall|i: int|
            0 <= i < post.entries@.len() ==> pre.entries@.contains(#[trigger] post.entries@[i]),
        forall|i: int|
            0 <= i < pre.entries@.len() && (keep.contains((#[trigger] pre.entries@[i]).tag.0)
                || pre.entries@[i].protected) ==> post.entries@.contains(pre.entries@[i]),
    ensures
        post.grants_read(t) == pre.grants_read(t),
        post.grants_write(t) == pre.grants_write(t),
        post.protector_violation(t) == pre.protector_violation(t),
        post.any_active_protector() == pre.any_active_protector(),
        post.read_ok(t) == pre.read_ok(t),
        post.write_ok(t) == pre.write_ok(t),
{
    if pre.grants_read(t) {
        let i = choose|i: int|
            0 <= i < pre.entries@.len() && (#[trigger] pre.entries@[i]).tag.0 == t
                && pre.entries@[i].perm != Permission::Disabled;
        assert(post.entries@.contains(pre.entries@[i]));
        let k = choose|k: int| 0 <= k < post.entries@.len() && post.entries@[k] == pre.entries@[i];
        assert(post.entries@[k].tag.0 == t && post.entries@[k].perm != Permission::Disabled);
    }
    if post.grants_read(t) {
        let i = choose|i: int|
            0 <= i < post.entries@.len() && (#[trigger] post.entries@[i]).tag.0 == t
                && post.entries@[i].perm != Permission::Disabled;
        assert(pre.entries@.contains(post.entries@[i]));
        let k = choose|k: int| 0 <= k < pre.entries@.len() && pre.entries@[k] == post.entries@[i];
        assert(pre.entries@[k].tag.0 == t && pre.entries@[k].perm != Permission::Disabled);
    }
    if pre.grants_write(t) {
        let i = choose|i: int|
            0 <= i < pre.entries@.len() && (#[trigger] pre.entries@[i]).tag.0 == t
                && pre.entries@[i].perm == Permission::Unique;
        assert(post.entries@.contains(pre.entries@[i]));
        let k = choose|k: int| 0 <= k < post.entries@.len() && post.entries@[k] == pre.entries@[i];
        assert(post.entries@[k].tag.0 == t && post.entries@[k].perm == Permission::Unique);
    }
    if post.grants_write(t) {
        let i = choose|i: int|
            0 <= i < post.entries@.len() && (#[trigger] post.entries@[i]).tag.0 == t
                && post.entries@[i].perm == Permission::Unique;
        assert(pre.entries@.contains(post.entries@[i]));
        let k = choose|k: int| 0 <= k < pre.entries@.len() && pre.entries@[k] == post.entries@[i];
        assert(pre.entries@[k].tag.0 == t && pre.entries@[k].perm == Permission::Unique);
    }
    if pre.protector_violation(t) {
        let i = choose|i: int|
            0 <= i < pre.entries@.len() && (#[trigger] pre.entries@[i]).protected
                && pre.entries@[i].perm != Permission::Disabled && pre.entries@[i].tag.0 != t;
        assert(post.entries@.contains(pre.entries@[i]));
        let k = choose|k: int| 0 <= k < post.entries@.len() && post.entries@[k] == pre.entries@[i];
        assert(post.entries@[k].protected && post.entries@[k].perm != Permission::Disabled
            && post.entries@[k].tag.0 != t);
    }
    if post.protector_violation(t) {
        let i = choose|i: int|
            0 <= i < post.entries@.len() && (#[trigger] post.entries@[i]).protected
                && post.entries@[i].perm != Permission::Disabled && post.entries@[i].tag.0 != t;
        assert(pre.entries@.contains(post.entries@[i]));
        let k = choose|k: int| 0 <= k < pre.entries@.len() && pre.entries@[k] == post.entries@[i];
        assert(pre.entries@[k].protected && pre.entries@[k].perm != Permission::Disabled
            && pre.entries@[k].tag.0 != t);
    }
    if pre.any_active_protector() {
        let i = choose|i: int|
            0 <= i < pre.entries@.len() && (#[trigger] pre.entries@[i]).protected
                && pre.entries@[i].perm != Permission::Disabled;
        assert(post.entries@.contains(pre.entries@[i]));
        let k = choose|k: int| 0 <= k < post.entries@.len() && post.entries@[k] == pre.entries@[i];
        assert(post.entries@[k].protected && post.entries@[k].perm != Permission::Disabled);
    }
    if post.any_active_protector() {
        let i = choose|i: int|
            0 <= i < post.entries@.len() && (#[trigger] post.entries@[i]).protected
                && post.entries@[i].perm != Permission::Disabled;
        assert(pre.entries@.contains(post.entries@[i]));
        let k = choose|k: int| 0 <= k < pre.entries@.len() && pre.entries@[k] == post.entries@[i];
        assert(pre.entries@[k].protected && pre.entries@[k].perm != Permission::Disabled);
    }
}

} // verus!
