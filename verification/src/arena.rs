//! Arena of sources

use vstd::prelude::*;
use crate::reference::Reference;
use crate::source::{ArenaSource, SourceView};

verus! {

/// `generational_arena::Arena`: the verifier carries its values through and
/// sees nothing inside them.
#[verifier::external_type_specification]
#[verifier::external_body]
#[verifier::reject_recursive_types(T)]
pub struct ExArena<T>(generational_arena::Arena<T>);

/// The sources that an arena holds, each under the reference that resolves
/// to it: the slot and the generation of an occupied entry
pub uninterp spec fn arena_entries(arena: generational_arena::Arena<ArenaSource>) -> Map<Reference, SourceView>;

/// `generational_arena::Arena::new`: an arena that holds nothing.
#[verifier::external_body]
fn arena_new() -> (res: generational_arena::Arena<ArenaSource>)
    ensures
        forall|r: Reference| !arena_entries(res).contains_key(r),
{
    generational_arena::Arena::new()
}

/// `generational_arena::Arena::insert`: the value goes into a slot that was
/// free, so the reference handed back resolved to nothing before; every other
/// entry stays as it was.
#[verifier::external_body]
fn arena_insert(arena: &mut generational_arena::Arena<ArenaSource>, value: ArenaSource) -> (r: Reference)
    ensures
        !arena_entries(*old(arena)).contains_key(r),
        arena_entries(*final(arena)) == arena_entries(*old(arena)).insert(r, value@),
{
    let (slot, generation) = arena.insert(value).into_raw_parts();
    Reference { slot, generation }
}

/// `generational_arena::Arena::get`: the source under the reference, if the
/// reference resolves.
#[verifier::external_body]
fn arena_get(arena: &generational_arena::Arena<ArenaSource>, r: Reference) -> (res: Option<&ArenaSource>)
    ensures
        res is Some == arena_entries(*arena).contains_key(r),
        res is Some ==> res->0@ == arena_entries(*arena)[r],
{
    arena.get(generational_arena::Index::from_raw_parts(r.slot, r.generation))
}

/// `generational_arena::Arena::get_mut`: exclusive access to the source under
/// the reference, if the reference resolves; what the caller leaves behind it
/// is what the arena holds there afterwards, and nothing else changes.
#[verifier::external_body]
fn arena_get_mut(arena: &mut generational_arena::Arena<ArenaSource>, r: Reference) -> (res: Option<&mut ArenaSource>)
    ensures
        res is Some == arena_entries(*old(arena)).contains_key(r),
        arena_entries(*final(arena)).dom() == arena_entries(*old(arena)).dom(),
        match res {
            Some(node) => node@ == arena_entries(*old(arena))[r]
                && arena_entries(*final(arena)) == arena_entries(*old(arena)).insert(r, final(node)@),
            None => arena_entries(*final(arena)) == arena_entries(*old(arena)),
        },
{
    arena.get_mut(generational_arena::Index::from_raw_parts(r.slot, r.generation))
}

/// Arena of sources: every source that was ever inserted, under a reference
/// that stays valid.
pub struct SourcesArena {
    /// The slots
    inner: generational_arena::Arena<ArenaSource>,
    /// For each source, how many were inserted before it
    order: Ghost<Map<Reference, nat>>,
    /// How many sources were inserted
    count: Ghost<nat>,
}

impl View for SourcesArena {
    type V = Map<Reference, SourceView>;

    /// The sources of the arena, each under the reference that resolves to it
    closed spec fn view(&self) -> Map<Reference, SourceView> {
        arena_entries(self.inner)
    }
}

impl SourcesArena {
    /// For each source, how many were inserted before it
    pub closed spec fn order(&self) -> Map<Reference, nat> {
        self.order@
    }

    /// How many sources were inserted
    pub closed spec fn count(&self) -> nat {
        self.count@
    }

    /// The bookkeeping of the arena is consistent: every source has its
    /// place in the order of insertion
    pub open spec fn wf(&self) -> bool {
        forall|r: Reference| #[trigger]
            self@.dom().contains(r) ==> self.order().contains_key(r) && self.order()[r] < self.count()
    }

    /// The sources form a forest: a child that resolves was inserted after
    /// the directory that lists it, and every parent resolves, is a
    /// directory and was inserted before its child
    pub open spec fn ordered(&self) -> bool {
        &&& forall|r: Reference, i: int|
            self@.contains_key(r) && 0 <= i < self@[r].children().len() && self@.contains_key(
                #[trigger] self@[r].children()[i],
            ) ==> self.order()[r] < self.order()[self@[r].children()[i]]
        &&& forall|r: Reference| #[trigger]
            self@.contains_key(r) && self@[r].parent_index() is Some ==> self@.contains_key(
                self@[r].parent_index()->0,
            ) && self@[self@[r].parent_index()->0].is_dir()
                && self.order()[self@[r].parent_index()->0] < self.order()[r]
    }

    /// How far the source is from the end of the order of insertion
    pub open spec fn measure(&self, r: Reference) -> nat {
        if self.order().contains_key(r) && self.order()[r] < self.count() {
            (self.count() - self.order()[r]) as nat
        } else {
            0
        }
    }

    /// Does a walk that stands at `r` go down into `child`? It does when the
    /// child resolves and was inserted after `r`, which holds of every child
    /// that resolves in an ordered arena.
    pub open spec fn descends(&self, r: Reference, child: Reference) -> bool {
        self@.contains_key(child) && self.measure(child) < self.measure(r)
    }

    /// Every reference that resolves in `self` resolves in `later`, to a
    /// source with the same title, URL and parent
    pub open spec fn extended_by(&self, later: &SourcesArena) -> bool {
        forall|r: Reference| #[trigger]
            self@.contains_key(r) ==> later@.contains_key(r) && same_identity(self@[r], later@[r])
    }

    /// Prepare an arena that holds nothing
    pub fn new() -> (arena: Self)
        ensures
            arena.wf(),
            arena.ordered(),
            arena.count() == 0,
            forall|r: Reference| !arena@.contains_key(r),
    {
        SourcesArena { inner: arena_new(), order: Ghost(Map::empty()), count: Ghost(0) }
    }

    /// Insert the source into the arena, return the reference to it
    pub fn insert(&mut self, value: ArenaSource) -> (r: Reference)
        requires
            old(self).wf(),
        ensures
            final(self).wf(),
            !old(self)@.contains_key(r),
            final(self)@ == old(self)@.insert(r, value@),
            final(self).order() == old(self).order().insert(r, old(self).count()),
            final(self).count() == old(self).count() + 1,
            old(self).extended_by(final(self)),
            after_insertion(*old(self), *final(self)),
            old(self).ordered() && value@.children().len() == 0 && (value@.parent_index() is Some
                ==> old(self)@.contains_key(value@.parent_index()->0)
                && old(self)@[value@.parent_index()->0].is_dir()) ==> final(self).ordered(),
    {
        let r = arena_insert(&mut self.inner, value);
        self.order = Ghost(self.order@.insert(r, self.count@));
        self.count = Ghost(self.count@ + 1);
        proof {
            assert(self@ == old(self)@.insert(r, value@));
            assert forall|x: Reference| #[trigger] self@.contains_key(x) implies self.order().contains_key(x)
                && self.order()[x] < self.count() by {
                if x != r {
                    assert(old(self)@.contains_key(x));
                }
            }
        }
        r
    }

    /// Get the source under the reference, if the reference resolves
    pub fn get(&self, index: Reference) -> (res: Option<&ArenaSource>)
        ensures
            res is Some == self@.contains_key(index),
            res is Some ==> res->0@ == self@[index],
    {
        arena_get(&self.inner, index)
    }

    /// Get exclusive access to the source under the reference, if the
    /// reference resolves. What the caller leaves behind the access is what
    /// the arena holds under the reference afterwards; no other source
    /// changes, and every reference resolves as before.
    pub fn get_mut(&mut self, index: Reference) -> (res: Option<&mut ArenaSource>)
        requires
            old(self).wf(),
        ensures
            final(self)@.dom() == old(self)@.dom(),
            final(self).order() == old(self).order(),
            final(self).count() == old(self).count(),
            final(self).wf(),
            res is Some == old(self)@.contains_key(index),
            match res {
                Some(source) => source@ == old(self)@[index] && final(self)@ == old(self)@.insert(
                    index,
                    final(source)@,
                ),
                None => final(self)@ == old(self)@,
            },
    {
        arena_get_mut(&mut self.inner, index)
    }

    /// Push the child to the children of the source under `index`. A
    /// reference that does not resolve, or resolves to a feed, changes
    /// nothing.
    pub fn push_to_children(&mut self, index: Reference, child: Reference)
        requires
            old(self).wf(),
        ensures
            final(self).wf(),
            final(self).order() == old(self).order(),
            final(self).count() == old(self).count(),
            old(self).extended_by(final(self)),
            old(self)@.contains_key(index) ==> final(self)@ == old(self)@.insert(
                index,
                old(self)@[index].with_child(child),
            ),
            !old(self)@.contains_key(index) ==> final(self)@ == old(self)@,
            old(self).ordered() && (old(self)@.contains_key(index) && old(self)@.contains_key(child)
                ==> old(self).order()[index] < old(self).order()[child]) ==> final(self).ordered(),
    {
        match arena_get_mut(&mut self.inner, index) {
            Some(source) => {
                source.push_to_children(child);
            },
            None => {},
        }
        proof {
            if old(self)@.contains_key(index) && old(self).ordered() && (old(self)@.contains_key(child)
                ==> old(self).order()[index] < old(self).order()[child]) {
                let before = old(self)@[index].children();
                assert forall|r: Reference, i: int|
                    self@.contains_key(r) && 0 <= i < self@[r].children().len()
                        && self@.contains_key(#[trigger] self@[r].children()[i]) implies self.order()[r]
                    < self.order()[self@[r].children()[i]] by {
                    if r == index {
                        if i < before.len() {
                            assert(self@[r].children()[i] == old(self)@[r].children()[i]);
                        }
                    } else {
                        assert(self@[r].children()[i] == old(self)@[r].children()[i]);
                    }
                }
            }
        }
    }

    /// Insert the child into the children of the source under `index`, at
    /// the position, or at their end where the position lies behind it. A
    /// reference that does not resolve, or resolves to a feed, changes nothing.
    pub fn insert_child(&mut self, index: Reference, position: usize, child: Reference)
        requires
            old(self).wf(),
        ensures
            final(self).wf(),
            final(self).order() == old(self).order(),
            final(self).count() == old(self).count(),
            old(self).extended_by(final(self)),
            old(self)@.contains_key(index) ==> final(self)@ == old(self)@.insert(
                index,
                old(self)@[index].with_child_at(position as int, child),
            ),
            !old(self)@.contains_key(index) ==> final(self)@ == old(self)@,
            old(self).ordered() && (old(self)@.contains_key(index) && old(self)@.contains_key(child)
                ==> old(self).order()[index] < old(self).order()[child]) ==> final(self).ordered(),
    {
        match arena_get_mut(&mut self.inner, index) {
            Some(source) => {
                source.insert_child(position, child);
            },
            None => {},
        }
        proof {
            if old(self)@.contains_key(index) && old(self).ordered() && (old(self)@.contains_key(child)
                ==> old(self).order()[index] < old(self).order()[child]) {
                let before = old(self)@[index].children();
                let at = if 0 <= position <= before.len() {
                    position as int
                } else {
                    before.len() as int
                };
                assert forall|r: Reference, i: int|
                    self@.contains_key(r) && 0 <= i < self@[r].children().len()
                        && self@.contains_key(#[trigger] self@[r].children()[i]) implies self.order()[r]
                    < self.order()[self@[r].children()[i]] by {
                    if r == index {
                        if i < at {
                            assert(self@[r].children()[i] == old(self)@[r].children()[i]);
                        } else if i > at {
                            assert(self@[r].children()[i] == old(self)@[r].children()[i - 1]);
                        }
                    } else {
                        assert(self@[r].children()[i] == old(self)@[r].children()[i]);
                    }
                }
            }
        }
    }

    /// Set the updating status of the feed under `index`. A reference that
    /// does not resolve, or resolves to a directory, changes nothing.
    pub fn set_updating(&mut self, index: Reference, status: bool)
        requires
            old(self).wf(),
        ensures
            final(self).wf(),
            final(self).order() == old(self).order(),
            final(self).count() == old(self).count(),
            old(self).extended_by(final(self)),
            old(self)@.contains_key(index) ==> final(self)@ == old(self)@.insert(
                index,
                old(self)@[index].with_updating(status),
            ),
            !old(self)@.contains_key(index) ==> final(self)@ == old(self)@,
            old(self).ordered() ==> final(self).ordered(),
    {
        match arena_get_mut(&mut self.inner, index) {
            Some(source) => {
                source.set_updating(status);
            },
            None => {},
        }
        proof {
            if old(self)@.contains_key(index) && old(self).ordered() {
                assert forall|r: Reference, i: int|
                    self@.contains_key(r) && 0 <= i < self@[r].children().len()
                        && self@.contains_key(#[trigger] self@[r].children()[i]) implies self.order()[r]
                    < self.order()[self@[r].children()[i]] by {
                    assert(self@[r].children()[i] == old(self)@[r].children()[i]);
                }
            }
        }
    }
}

/// Is `after` the arena `before` with one more source, under a reference
/// that did not resolve?
pub open spec fn after_insertion(before: SourcesArena, after: SourcesArena) -> bool {
    exists|r: Reference, value: SourceView|
        !before@.contains_key(r) && after@ == #[trigger] before@.insert(r, value)
}

/// Over any sequence of insertions, every reference that an insertion has
/// handed out resolves ever after, to the source that was inserted.
pub proof fn lemma_insertions_keep_references(arenas: Seq<SourcesArena>, i: int, j: int)
    requires
        forall|k: int| 0 <= k < arenas.len() - 1 ==> #[trigger] after_insertion(arenas[k], arenas[k + 1]),
        0 <= i <= j < arenas.len(),
    ensures
        forall|r: Reference|
            arenas[i]@.contains_key(r) ==> #[trigger] arenas[j]@.contains_key(r) && arenas[j]@[r]
                == arenas[i]@[r],
    decreases j - i,
{
    if i < j {
        lemma_insertions_keep_references(arenas, i, j - 1);
        assert(after_insertion(arenas[j - 1], arenas[j - 1 + 1]));
    }
}

/// References stay valid: what resolved once resolves in every later arena,
/// however many insertions and changes lie between.
pub proof fn lemma_references_stay_valid(first: &SourcesArena, second: &SourcesArena, third: &SourcesArena)
    requires
        first.extended_by(second),
        second.extended_by(third),
    ensures
        first.extended_by(third),
{
    assert forall|r: Reference| #[trigger] first@.contains_key(r) implies third@.contains_key(r)
        && same_identity(first@[r], third@[r]) by {
        assert(second@.contains_key(r));
    }
}

/// Two values of one source over time: the kind, the title, the URL and the
/// parent are the same; the children and the updating status may differ
pub open spec fn same_identity(before: SourceView, after: SourceView) -> bool {
    match before {
        SourceView::Feed { title, url, parent_index, .. } => after is Feed && after->Feed_title
            == title && after->Feed_url == url && after->Feed_parent_index == parent_index,
        SourceView::Directory { title, parent_index, .. } => after is Directory
            && after->Directory_title == title && after->Directory_parent_index == parent_index,
        SourceView::RootDirectory { .. } => after is RootDirectory,
    }
}

} // verus!
