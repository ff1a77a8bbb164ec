//! Recursive collection of the URLs beneath a source

use vstd::prelude::*;
use crate::arena::SourcesArena;
use crate::reference::Reference;
use crate::source::{ArenaSource, SourceView};

verus! {

/// A dictionary of (URL, references of the feeds with this URL) pairs, in the
/// order in which a walk of the tree meets each URL first
pub type URLsMap = Vec<(String, Vec<Reference>)>;

/// Mathematical value of the dictionary
pub open spec fn urls_map_view(entries: Seq<(String, Vec<Reference>)>) -> Seq<
    (Seq<char>, Seq<Reference>),
> {
    entries.map_values(|e: (String, Vec<Reference>)| (e.0@, e.1@))
}

/// The URLs of a dictionary, in its order
pub open spec fn keys_of(entries: Seq<(Seq<char>, Seq<Reference>)>) -> Seq<Seq<char>> {
    entries.map_values(|e: (Seq<char>, Seq<Reference>)| e.0)
}

/// Is there an entry under this URL?
pub open spec fn has_key(entries: Seq<(Seq<char>, Seq<Reference>)>, key: Seq<char>) -> bool {
    exists|i: int| 0 <= i < entries.len() && (#[trigger] entries[i]).0 == key
}

/// No URL has two entries
pub open spec fn keys_unique(entries: Seq<(Seq<char>, Seq<Reference>)>) -> bool {
    forall|i: int, j: int|
        0 <= i < j < entries.len() ==> (#[trigger] entries[i]).0 != (#[trigger] entries[j]).0
}

/// The dictionary after the references were added under the URL: behind those
/// that stand there already, or as a new entry at the end
pub open spec fn merged_entry(
    entries: Seq<(Seq<char>, Seq<Reference>)>,
    key: Seq<char>,
    refs: Seq<Reference>,
) -> Seq<(Seq<char>, Seq<Reference>)> {
    if has_key(entries, key) {
        Seq::new(
            entries.len(),
            |i: int|
                if entries[i].0 == key {
                    (key, entries[i].1 + refs)
                } else {
                    entries[i]
                },
        )
    } else {
        entries.push((key, refs))
    }
}

/// The dictionary after every entry of `more` was added to it in turn
pub open spec fn merged_maps(
    acc: Seq<(Seq<char>, Seq<Reference>)>,
    more: Seq<(Seq<char>, Seq<Reference>)>,
) -> Seq<(Seq<char>, Seq<Reference>)>
    decreases more.len(),
{
    if more.len() == 0 {
        acc
    } else {
        merged_entry(merged_maps(acc, more.drop_last()), more.last().0, more.last().1)
    }
}

/// The list with the URL at its end, unless it holds the URL already
pub open spec fn pushed_unique(acc: Seq<Seq<char>>, url: Seq<char>) -> Seq<Seq<char>> {
    if acc.contains(url) {
        acc
    } else {
        acc.push(url)
    }
}

/// The list after every URL of `more` that it lacked was added to it in turn
pub open spec fn extended_unique(acc: Seq<Seq<char>>, more: Seq<Seq<char>>) -> Seq<Seq<char>>
    decreases more.len(),
{
    if more.len() == 0 {
        acc
    } else {
        pushed_unique(extended_unique(acc, more.drop_last()), more.last())
    }
}

/// Copy the references of `src` to the end of `dst`
pub fn extend_references(dst: &mut Vec<Reference>, src: &Vec<Reference>)
    ensures
        final(dst)@ == old(dst)@ + src@,
{
    let mut i: usize = 0;
    while i < src.len()
        invariant
            i <= src.len(),
            dst@ == old(dst)@ + src@.take(i as int),
        decreases src.len() - i,
    {
        dst.push(src[i]);
        proof {
            assert(src@.take(i + 1) =~= src@.take(i as int).push(src@[i as int]));
            assert(dst@ =~= old(dst)@ + src@.take(i + 1));
        }
        i += 1;
    }
    proof {
        assert(src@.take(src@.len() as int) =~= src@);
    }
}

/// Add the references to the dictionary under the URL
pub fn merge_entry(acc: &mut URLsMap, key: String, refs: Vec<Reference>)
    ensures
        urls_map_view(final(acc)@) == merged_entry(urls_map_view(old(acc)@), key@, refs@),
{
    let ghost before = urls_map_view(acc@);
    let mut found = false;
    let mut i: usize = 0;
    while i < acc.len()
        invariant
            i <= acc.len(),
            acc.len() == before.len(),
            found == has_key(before.take(i as int), key@),
            forall|j: int|
                0 <= j < i ==> #[trigger] urls_map_view(acc@)[j] == if before[j].0 == key@ {
                    (key@, before[j].1 + refs@)
                } else {
                    before[j]
                },
            forall|j: int| i <= j < acc.len() ==> #[trigger] urls_map_view(acc@)[j] == before[j],
        decreases acc.len() - i,
    {
        let ghost at_start = acc@;
        if acc[i].0 == key {
            let entry = &mut acc[i];
            extend_references(&mut entry.1, &refs);
            found = true;
        }
        proof {
            assert(urls_map_view(at_start)[i as int] == before[i as int]);
            assert(before.take(i + 1).drop_last() =~= before.take(i as int));
            if before[i as int].0 == key@ {
                assert(before.take(i + 1)[i as int].0 == key@);
            } else if has_key(before.take(i + 1), key@) {
                let k = choose|k: int|
                    0 <= k < before.take(i + 1).len() && (#[trigger] before.take(i + 1)[k]).0
                        == key@;
                assert(before.take(i as int)[k].0 == key@);
            }
            if has_key(before.take(i as int), key@) {
                let k = choose|k: int|
                    0 <= k < before.take(i as int).len() && (#[trigger] before.take(i as int)[k]).0
                        == key@;
                assert(before.take(i + 1)[k].0 == key@);
            }
            assert forall|j: int| 0 <= j < acc.len() && j != i implies #[trigger] urls_map_view(
                acc@,
            )[j] == urls_map_view(at_start)[j] by {
                assert(acc@[j] == at_start[j]);
            }
        }
        i += 1;
    }
    proof {
        assert(before.take(before.len() as int) =~= before);
    }
    if !found {
        let ghost prior = acc@;
        acc.push((key, refs));
        proof {
            assert forall|j: int| 0 <= j < before.len() implies urls_map_view(acc@)[j]
                == before[j] by {
                assert(acc@[j] == prior[j]);
                assert(urls_map_view(prior)[j] == urls_map_view(acc@)[j]);
                if before[j].0 == key@ {
                    assert(has_key(before, key@));
                }
            }
            assert(urls_map_view(acc@) =~= before.push((key@, refs@)));
        }
    } else {
        proof {
            assert(urls_map_view(acc@) =~= merged_entry(before, key@, refs@));
        }
    }
}

/// Add every entry of `more` to the dictionary in turn
pub fn merge_maps(acc: &mut URLsMap, more: &URLsMap)
    ensures
        urls_map_view(final(acc)@) == merged_maps(urls_map_view(old(acc)@), urls_map_view(more@)),
{
    let ghost all = urls_map_view(more@);
    let mut i: usize = 0;
    while i < more.len()
        invariant
            i <= more.len(),
            all == urls_map_view(more@),
            urls_map_view(acc@) == merged_maps(urls_map_view(old(acc)@), all.take(i as int)),
        decreases more.len() - i,
    {
        let key = more[i].0.clone();
        let mut refs: Vec<Reference> = Vec::new();
        extend_references(&mut refs, &more[i].1);
        merge_entry(acc, key, refs);
        proof {
            assert(all.take(i + 1).drop_last() =~= all.take(i as int));
            assert(all.take(i + 1).last() == all[i as int]);
            assert(refs@ =~= more@[i as int].1@);
        }
        i += 1;
    }
    proof {
        assert(all.take(all.len() as int) =~= all);
    }
}

/// Mathematical value of a list of URLs
pub open spec fn urls_view(urls: Seq<String>) -> Seq<Seq<char>> {
    urls.map_values(|url: String| url@)
}

/// Add the URL to the list, unless the list holds it already
pub fn push_unique(acc: &mut Vec<String>, url: String)
    ensures
        urls_view(final(acc)@) == pushed_unique(urls_view(old(acc)@), url@),
{
    let ghost before = urls_view(acc@);
    let mut i: usize = 0;
    while i < acc.len()
        invariant
            i <= acc.len(),
            acc@ == old(acc)@,
            before == urls_view(acc@),
            !before.take(i as int).contains(url@),
        decreases acc.len() - i,
    {
        if acc[i] == url {
            proof {
                assert(before[i as int] == url@);
            }
            return ;
        }
        proof {
            let longer = before.take(i + 1);
            if longer.contains(url@) {
                let k = choose|k: int| 0 <= k < longer.len() && longer[k] == url@;
                if k < i {
                    assert(before.take(i as int)[k] == url@);
                } else {
                    assert(before[i as int] == acc@[i as int]@);
                }
            }
        }
        i += 1;
    }
    proof {
        assert(before.take(before.len() as int) =~= before);
    }
    acc.push(url);
    proof {
        assert(urls_view(acc@) =~= before.push(url@));
    }
}

/// Add to the list, in turn, every URL of `more` that it lacks
pub fn extend_unique(acc: &mut Vec<String>, more: &Vec<String>)
    ensures
        urls_view(final(acc)@) == extended_unique(urls_view(old(acc)@), urls_view(more@)),
{
    let ghost all = urls_view(more@);
    let mut i: usize = 0;
    while i < more.len()
        invariant
            i <= more.len(),
            all == urls_view(more@),
            urls_view(acc@) == extended_unique(urls_view(old(acc)@), all.take(i as int)),
        decreases more.len() - i,
    {
        push_unique(acc, more[i].clone());
        proof {
            assert(all.take(i + 1).drop_last() =~= all.take(i as int));
            assert(all.take(i + 1).last() == all[i as int]);
        }
        i += 1;
    }
    proof {
        assert(all.take(all.len() as int) =~= all);
    }
}

impl SourcesArena {
    /// The URLs of the feeds at and beneath the source, each once, in the
    /// order in which a walk through the children meets them
    pub open spec fn urls_under(&self, r: Reference) -> Seq<Seq<char>>
        decreases self.measure(r), 1nat, 0nat,
    {
        if !self@.contains_key(r) {
            Seq::empty()
        } else {
            match self@[r] {
                SourceView::Feed { url, .. } => seq![url],
                _ => self.urls_of_children(r, self@[r].children().len()),
            }
        }
    }

    /// The URLs of the feeds at and beneath the first `n` children of the
    /// source
    pub open spec fn urls_of_children(&self, r: Reference, n: nat) -> Seq<Seq<char>>
        decreases self.measure(r), 0nat, n,
    {
        if n == 0 || !self@.contains_key(r) || n > self@[r].children().len() {
            Seq::empty()
        } else {
            let rest = self.urls_of_children(r, (n - 1) as nat);
            let child = self@[r].children()[n - 1];
            if self.descends(r, child) {
                extended_unique(rest, self.urls_under(child))
            } else {
                rest
            }
        }
    }

    /// The dictionary of the feeds at and beneath the source: each URL with
    /// the references of the feeds that have it, in the order of the walk
    pub open spec fn urls_map_under(&self, r: Reference) -> Seq<(Seq<char>, Seq<Reference>)>
        decreases self.measure(r), 1nat, 0nat,
    {
        if !self@.contains_key(r) {
            Seq::empty()
        } else {
            match self@[r] {
                SourceView::Feed { url, .. } => seq![(url, seq![r])],
                _ => self.urls_map_of_children(r, self@[r].children().len()),
            }
        }
    }

    /// The dictionary of the feeds at and beneath the first `n` children of
    /// the source
    pub open spec fn urls_map_of_children(&self, r: Reference, n: nat) -> Seq<
        (Seq<char>, Seq<Reference>),
    >
        decreases self.measure(r), 0nat, n,
    {
        if n == 0 || !self@.contains_key(r) || n > self@[r].children().len() {
            Seq::empty()
        } else {
            let rest = self.urls_map_of_children(r, (n - 1) as nat);
            let child = self@[r].children()[n - 1];
            if self.descends(r, child) {
                merged_maps(rest, self.urls_map_under(child))
            } else {
                rest
            }
        }
    }

    /// Is `ancestor` the parent of the source, or the parent of its parent,
    /// and so on?
    pub open spec fn beneath(&self, r: Reference, ancestor: Reference) -> bool
        decreases self.order()[r],
    {
        self@.contains_key(r) && match self@[r].parent_index() {
            Some(parent) => self@.contains_key(parent) && (parent == ancestor || (self.order()[parent]
                < self.order()[r] && self.beneath(parent, ancestor))),
            None => false,
        }
    }

    /// In an ordered arena the walk goes down into every child that resolves
    pub proof fn lemma_descends(&self, r: Reference, i: int)
        requires
            self.wf(),
            self.ordered(),
            self@.contains_key(r),
            0 <= i < self@[r].children().len(),
            self@.contains_key(self@[r].children()[i]),
        ensures
            self.descends(r, self@[r].children()[i]),
    {
    }

    /// Get the URLs from the source recursively
    pub fn urls(&self, index: Reference) -> (res: Vec<String>)
        requires
            self.wf(),
            self.ordered(),
        ensures
            urls_view(res@) == self.urls_under(index),
        decreases self.measure(index),
    {
        let mut acc: Vec<String> = Vec::new();
        match self.get(index) {
            None => {
                proof {
                    assert(urls_view(acc@) =~= Seq::empty());
                }
            },
            Some(source) => match source {
                ArenaSource::Feed { url, .. } => {
                    acc.push(url.clone());
                    proof {
                        assert(urls_view(acc@) =~= seq![url@]);
                    }
                },
                ArenaSource::Directory { children, .. } | ArenaSource::RootDirectory { children } => {
                    let mut i: usize = 0;
                    proof {
                        assert(urls_view(acc@) =~= Seq::empty());
                    }
                    while i < children.len()
                        invariant
                            i <= children.len(),
                            self.wf(),
                            self.ordered(),
                            self@.contains_key(index),
                            children@ == self@[index].children(),
                            urls_view(acc@) == self.urls_of_children(index, i as nat),
                        decreases children.len() - i,
                    {
                        let child = children[i];
                        if self.get(child).is_some() {
                            proof {
                                self.lemma_descends(index, i as int);
                            }
                            let more = self.urls(child);
                            extend_unique(&mut acc, &more);
                        }
                        i += 1;
                    }
                },
            },
        }
        acc
    }

    /// Get a dictionary of (URL, references) pairs recursively
    pub fn urls_map(&self, index: Reference) -> (res: URLsMap)
        requires
            self.wf(),
            self.ordered(),
        ensures
            urls_map_view(res@) == self.urls_map_under(index),
        decreases self.measure(index),
    {
        let mut acc: URLsMap = Vec::new();
        match self.get(index) {
            None => {
                proof {
                    assert(urls_map_view(acc@) =~= Seq::empty());
                }
            },
            Some(source) => match source {
                ArenaSource::Feed { url, .. } => {
                    let mut refs: Vec<Reference> = Vec::new();
                    refs.push(index);
                    acc.push((url.clone(), refs));
                    proof {
                        assert(refs@ =~= seq![index]);
                        assert(urls_map_view(acc@) =~= seq![(url@, seq![index])]);
                    }
                },
                ArenaSource::Directory { children, .. } | ArenaSource::RootDirectory { children } => {
                    let mut i: usize = 0;
                    proof {
                        assert(urls_map_view(acc@) =~= Seq::empty());
                    }
                    while i < children.len()
                        invariant
                            i <= children.len(),
                            self.wf(),
                            self.ordered(),
                            self@.contains_key(index),
                            children@ == self@[index].children(),
                            urls_map_view(acc@) == self.urls_map_of_children(index, i as nat),
                        decreases children.len() - i,
                    {
                        let child = children[i];
                        if self.get(child).is_some() {
                            proof {
                                self.lemma_descends(index, i as int);
                            }
                            let more = self.urls_map(child);
                            merge_maps(&mut acc, &more);
                        }
                        i += 1;
                    }
                },
            },
        }
        acc
    }

    /// Is the source under `child` a child (not necessarily a direct one) of
    /// the source under `index`?
    pub fn is_child_of(&self, child: Reference, index: Reference) -> (res: bool)
        requires
            self.wf(),
            self.ordered(),
        ensures
            res == self.beneath(child, index),
    {
        let mut current = child;
        loop
            invariant
                self.wf(),
                self.ordered(),
                self.beneath(child, index) == self.beneath(current, index),
            decreases self.order()[current],
        {
            match self.get(current) {
                None => {
                    return false;
                },
                Some(source) => match source.parent_index() {
                    None => {
                        return false;
                    },
                    Some(parent) => {
                        if parent == index {
                            return true;
                        }
                        current = parent;
                    },
                },
            }
        }
    }
}

/// Does the dictionary list the reference under the URL?
pub open spec fn lists(
    entries: Seq<(Seq<char>, Seq<Reference>)>,
    key: Seq<char>,
    r: Reference,
) -> bool {
    exists|i: int| 0 <= i < entries.len() && (#[trigger] entries[i]).0 == key && entries[i].1.contains(r)
}

/// Adding references under a URL keeps the URLs apart, keeps every
/// reference that was listed, and lists the new ones under that URL.
pub proof fn lemma_merged_entry(
    entries: Seq<(Seq<char>, Seq<Reference>)>,
    key: Seq<char>,
    refs: Seq<Reference>,
)
    ensures
        keys_unique(entries) ==> keys_unique(merged_entry(entries, key, refs)),
        forall|k: Seq<char>, r: Reference|
            lists(entries, k, r) ==> #[trigger] lists(merged_entry(entries, key, refs), k, r),
        forall|r: Reference|
            refs.contains(r) ==> #[trigger] lists(merged_entry(entries, key, refs), key, r),
{
    let merged = merged_entry(entries, key, refs);
    if has_key(entries, key) {
        let at = choose|i: int| 0 <= i < entries.len() && (#[trigger] entries[i]).0 == key;
        assert forall|i: int| 0 <= i < entries.len() implies (#[trigger] merged[i]).0
            == entries[i].0 by {}
        if keys_unique(entries) {
            assert forall|i: int, j: int| 0 <= i < j < merged.len() implies (#[trigger] merged[i]).0
                != (#[trigger] merged[j]).0 by {
                assert(entries[i].0 != entries[j].0);
            }
        }
        assert forall|k: Seq<char>, r: Reference| lists(entries, k, r) implies #[trigger] lists(
            merged,
            k,
            r,
        ) by {
            let i = choose|i: int|
                0 <= i < entries.len() && (#[trigger] entries[i]).0 == k && entries[i].1.contains(r);
            let w = choose|w: int| 0 <= w < entries[i].1.len() && entries[i].1[w] == r;
            if entries[i].0 == key {
                assert((entries[i].1 + refs)[w] == r);
            }
            assert(merged[i].0 == k && merged[i].1.contains(r));
        }
        assert forall|r: Reference| refs.contains(r) implies #[trigger] lists(merged, key, r) by {
            let w = choose|w: int| 0 <= w < refs.len() && refs[w] == r;
            assert((entries[at].1 + refs)[entries[at].1.len() + w] == r);
            assert(merged[at].0 == key && merged[at].1.contains(r));
        }
    } else {
        if keys_unique(entries) {
            assert forall|i: int, j: int| 0 <= i < j < merged.len() implies (#[trigger] merged[i]).0
                != (#[trigger] merged[j]).0 by {
                if j == entries.len() {
                    assert(entries[i].0 != key);
                } else {
                    assert(entries[i].0 != entries[j].0);
                }
            }
        }
        assert forall|k: Seq<char>, r: Reference| lists(entries, k, r) implies #[trigger] lists(
            merged,
            k,
            r,
        ) by {
            let i = choose|i: int|
                0 <= i < entries.len() && (#[trigger] entries[i]).0 == k && entries[i].1.contains(r);
            assert(merged[i].0 == k && merged[i].1.contains(r));
        }
        assert forall|r: Reference| refs.contains(r) implies #[trigger] lists(merged, key, r) by {
            let last = entries.len() as int;
            assert(merged[last].0 == key && merged[last].1.contains(r));
        }
    }
}

/// Merging two dictionaries keeps the URLs apart and keeps every reference
/// that either of them listed, under its URL.
pub proof fn lemma_merged_maps(
    acc: Seq<(Seq<char>, Seq<Reference>)>,
    more: Seq<(Seq<char>, Seq<Reference>)>,
)
    ensures
        keys_unique(acc) ==> keys_unique(merged_maps(acc, more)),
        forall|k: Seq<char>, r: Reference|
            lists(acc, k, r) || lists(more, k, r) ==> #[trigger] lists(merged_maps(acc, more), k, r),
    decreases more.len(),
{
    if more.len() > 0 {
        let shorter = more.drop_last();
        let mid = merged_maps(acc, shorter);
        lemma_merged_maps(acc, shorter);
        lemma_merged_entry(mid, more.last().0, more.last().1);
        assert forall|k: Seq<char>, r: Reference| lists(acc, k, r) || lists(more, k, r) implies #[trigger] lists(
            merged_maps(acc, more),
            k,
            r,
        ) by {
            if lists(acc, k, r) {
                assert(lists(mid, k, r));
            } else {
                let i = choose|i: int|
                    0 <= i < more.len() && (#[trigger] more[i]).0 == k && more[i].1.contains(r);
                if i < shorter.len() {
                    assert(shorter[i].0 == k && shorter[i].1.contains(r));
                    assert(lists(shorter, k, r));
                    assert(lists(mid, k, r));
                } else {
                    assert(more.last().1.contains(r));
                }
            }
        }
    }
}

/// The URLs of a dictionary to which references were added under a URL
/// are its URLs before, with that URL at the end if it was not among them.
pub proof fn lemma_keys_of_merged_entry(
    entries: Seq<(Seq<char>, Seq<Reference>)>,
    key: Seq<char>,
    refs: Seq<Reference>,
)
    ensures
        keys_of(merged_entry(entries, key, refs)) == pushed_unique(keys_of(entries), key),
{
    let merged = merged_entry(entries, key, refs);
    if has_key(entries, key) {
        let i = choose|i: int| 0 <= i < entries.len() && (#[trigger] entries[i]).0 == key;
        assert(keys_of(entries)[i] == key);
        assert(keys_of(merged) =~= keys_of(entries));
    } else {
        if keys_of(entries).contains(key) {
            let i = choose|i: int| 0 <= i < keys_of(entries).len() && keys_of(entries)[i] == key;
            assert(entries[i].0 == key);
        }
        assert(keys_of(merged) =~= keys_of(entries).push(key));
    }
}

/// The URLs of two dictionaries merged are the URLs of the first, followed
/// by those of the second that the first lacks.
pub proof fn lemma_keys_of_merged_maps(
    acc: Seq<(Seq<char>, Seq<Reference>)>,
    more: Seq<(Seq<char>, Seq<Reference>)>,
)
    ensures
        keys_of(merged_maps(acc, more)) == extended_unique(keys_of(acc), keys_of(more)),
    decreases more.len(),
{
    if more.len() > 0 {
        lemma_keys_of_merged_maps(acc, more.drop_last());
        lemma_keys_of_merged_entry(merged_maps(acc, more.drop_last()), more.last().0, more.last().1);
        assert(keys_of(more).drop_last() =~= keys_of(more.drop_last()));
        assert(keys_of(more).last() == more.last().0);
    }
}

/// Does every entry of the dictionary have a reference?
pub open spec fn no_empty_entries(entries: Seq<(Seq<char>, Seq<Reference>)>) -> bool {
    forall|i: int| 0 <= i < entries.len() ==> (#[trigger] entries[i]).1.len() > 0
}

/// Adding references under a URL lists nothing but what was listed and
/// what was added, and leaves no entry without a reference where there was
/// none and at least one reference was added.
pub proof fn lemma_merged_entry_lists_no_more(
    entries: Seq<(Seq<char>, Seq<Reference>)>,
    key: Seq<char>,
    refs: Seq<Reference>,
)
    ensures
        forall|k: Seq<char>, r: Reference| #[trigger]
            lists(merged_entry(entries, key, refs), k, r) ==> lists(entries, k, r) || (k == key
                && refs.contains(r)),
        no_empty_entries(entries) && refs.len() > 0 ==> no_empty_entries(
            merged_entry(entries, key, refs),
        ),
{
    let merged = merged_entry(entries, key, refs);
    assert forall|k: Seq<char>, r: Reference| #[trigger] lists(merged, k, r) implies lists(entries, k, r)
        || (k == key && refs.contains(r)) by {
        let i = choose|i: int|
            0 <= i < merged.len() && (#[trigger] merged[i]).0 == k && merged[i].1.contains(r);
        let w = choose|w: int| 0 <= w < merged[i].1.len() && merged[i].1[w] == r;
        if has_key(entries, key) {
            if entries[i].0 == key {
                if w < entries[i].1.len() {
                    assert(entries[i].1[w] == r);
                    assert(entries[i].0 == k && entries[i].1.contains(r));
                } else {
                    assert(refs[w - entries[i].1.len()] == r);
                }
            } else {
                assert(entries[i].0 == k && entries[i].1.contains(r));
            }
        } else {
            if i < entries.len() {
                assert(entries[i].0 == k && entries[i].1.contains(r));
            }
        }
    }
    if no_empty_entries(entries) && refs.len() > 0 {
        assert forall|i: int| 0 <= i < merged.len() implies (#[trigger] merged[i]).1.len() > 0 by {
            if i < entries.len() {
                assert(entries[i].1.len() > 0);
            }
        }
    }
}

/// Merging two dictionaries lists nothing but what one of them listed, and
/// leaves no entry without a reference where neither had one.
pub proof fn lemma_merged_maps_lists_no_more(
    acc: Seq<(Seq<char>, Seq<Reference>)>,
    more: Seq<(Seq<char>, Seq<Reference>)>,
)
    ensures
        forall|k: Seq<char>, r: Reference| #[trigger]
            lists(merged_maps(acc, more), k, r) ==> lists(acc, k, r) || lists(more, k, r),
        no_empty_entries(acc) && no_empty_entries(more) ==> no_empty_entries(merged_maps(acc, more)),
    decreases more.len(),
{
    if more.len() > 0 {
        let shorter = more.drop_last();
        let mid = merged_maps(acc, shorter);
        lemma_merged_maps_lists_no_more(acc, shorter);
        lemma_merged_entry_lists_no_more(mid, more.last().0, more.last().1);
        assert forall|k: Seq<char>, r: Reference| #[trigger]
            lists(merged_maps(acc, more), k, r) implies lists(acc, k, r) || lists(more, k, r) by {
            if lists(mid, k, r) {
                if lists(shorter, k, r) {
                    let i = choose|i: int|
                        0 <= i < shorter.len() && (#[trigger] shorter[i]).0 == k && shorter[i].1.contains(r);
                    assert(more[i].0 == k && more[i].1.contains(r));
                }
            } else {
                let last = more.len() - 1;
                assert(more[last].0 == k && more[last].1.contains(r));
            }
        }
        if no_empty_entries(acc) && no_empty_entries(more) {
            assert forall|i: int| 0 <= i < shorter.len() implies (#[trigger] shorter[i]).1.len() > 0 by {
                assert(more[i].1.len() > 0);
            }
            assert(more[more.len() - 1].1.len() > 0);
        }
    }
}

impl SourcesArena {
    /// No URL has two entries in the dictionary of a source.
    pub proof fn lemma_urls_map_keys_unique(&self, r: Reference)
        ensures
            keys_unique(self.urls_map_under(r)),
        decreases self.measure(r), 1nat, 0nat,
    {
        if self@.contains_key(r) && !(self@[r] is Feed) {
            self.lemma_urls_map_of_children(r, self@[r].children().len());
        }
    }

    /// No URL has two entries in the dictionary of the first `n` children of
    /// a source, and the dictionary lists whatever the dictionary of one of
    /// these children lists, where the walk goes down into that child.
    pub proof fn lemma_urls_map_of_children(&self, r: Reference, n: nat)
        ensures
            keys_unique(self.urls_map_of_children(r, n)),
            forall|i: int, k: Seq<char>, x: Reference|
                self@.contains_key(r) && 0 <= i < n <= self@[r].children().len() && self.descends(
                    r,
                    self@[r].children()[i],
                ) && #[trigger] lists(self.urls_map_under(self@[r].children()[i]), k, x)
                    ==> lists(self.urls_map_of_children(r, n), k, x),
        decreases self.measure(r), 0nat, n,
    {
        if !(n == 0 || !self@.contains_key(r) || n > self@[r].children().len()) {
            let rest = self.urls_map_of_children(r, (n - 1) as nat);
            let child = self@[r].children()[n - 1];
            self.lemma_urls_map_of_children(r, (n - 1) as nat);
            if self.descends(r, child) {
                self.lemma_urls_map_keys_unique(child);
                lemma_merged_maps(rest, self.urls_map_under(child));
            }
        }
    }

    /// Does the walk that starts at `r` come to `target`? It does when
    /// `target` is `r` itself, or when the walk comes to it from a child
    /// that it goes down into.
    pub open spec fn reaches(&self, r: Reference, target: Reference) -> bool
        decreases self.measure(r),
    {
        self@.contains_key(r) && (r == target || exists|i: int|
            0 <= i < self@[r].children().len() && self.descends(r, #[trigger] self@[r].children()[i])
                && self.reaches(self@[r].children()[i], target))
    }

    /// Every feed that the walk comes to is listed in the dictionary, under
    /// its URL.
    pub proof fn lemma_urls_map_lists_every_feed(&self, r: Reference, feed: Reference)
        requires
            self.reaches(r, feed),
            self@[feed] is Feed,
        ensures
            lists(self.urls_map_under(r), self@[feed]->Feed_url, feed),
        decreases self.measure(r),
    {
        let url = self@[feed]->Feed_url;
        if r == feed {
            assert(self.urls_map_under(r)[0].1[0] == feed);
            assert(self.urls_map_under(r)[0].0 == url && self.urls_map_under(r)[0].1.contains(feed));
        } else {
            let i = choose|i: int|
                0 <= i < self@[r].children().len() && self.descends(r, #[trigger] self@[r].children()[i])
                    && self.reaches(self@[r].children()[i], feed);
            self.lemma_urls_map_lists_every_feed(self@[r].children()[i], feed);
            self.lemma_urls_map_of_children(r, self@[r].children().len());
        }
    }

    /// Two feeds with one URL, wherever they stand beneath a source, are
    /// listed in one and the same entry of the dictionary of that source,
    /// and no other entry has that URL.
    pub proof fn lemma_feeds_sharing_url(&self, r: Reference, first: Reference, second: Reference)
        requires
            self.reaches(r, first),
            self.reaches(r, second),
            self@[first] is Feed,
            self@[second] is Feed,
            self@[first]->Feed_url == self@[second]->Feed_url,
        ensures
            keys_unique(self.urls_map_under(r)),
            exists|e: int|
                0 <= e < self.urls_map_under(r).len() && (#[trigger] self.urls_map_under(r)[e]).0
                    == self@[first]->Feed_url && self.urls_map_under(r)[e].1.contains(first)
                    && self.urls_map_under(r)[e].1.contains(second),
    {
        let url = self@[first]->Feed_url;
        let all = self.urls_map_under(r);
        self.lemma_urls_map_keys_unique(r);
        self.lemma_urls_map_lists_every_feed(r, first);
        self.lemma_urls_map_lists_every_feed(r, second);
        let a = choose|a: int| 0 <= a < all.len() && (#[trigger] all[a]).0 == url && all[a].1.contains(first);
        let b = choose|b: int| 0 <= b < all.len() && (#[trigger] all[b]).0 == url && all[b].1.contains(second);
        if a < b {
            assert(all[a].0 != all[b].0);
        } else if b < a {
            assert(all[b].0 != all[a].0);
        }
    }

    /// The URLs of the dictionary of a source are the URLs of the source, in
    /// the same order.
    pub proof fn lemma_urls_are_keys(&self, r: Reference)
        ensures
            keys_of(self.urls_map_under(r)) == self.urls_under(r),
        decreases self.measure(r), 1nat, 0nat,
    {
        if self@.contains_key(r) {
            if self@[r] is Feed {
                assert(keys_of(self.urls_map_under(r)) =~= self.urls_under(r));
            } else {
                self.lemma_urls_of_children_are_keys(r, self@[r].children().len());
            }
        } else {
            assert(keys_of(self.urls_map_under(r)) =~= self.urls_under(r));
        }
    }

    /// The same of the first `n` children of a source.
    pub proof fn lemma_urls_of_children_are_keys(&self, r: Reference, n: nat)
        ensures
            keys_of(self.urls_map_of_children(r, n)) == self.urls_of_children(r, n),
        decreases self.measure(r), 0nat, n,
    {
        if n == 0 || !self@.contains_key(r) || n > self@[r].children().len() {
            assert(keys_of(self.urls_map_of_children(r, n)) =~= self.urls_of_children(r, n));
        } else {
            let child = self@[r].children()[n - 1];
            self.lemma_urls_of_children_are_keys(r, (n - 1) as nat);
            if self.descends(r, child) {
                self.lemma_urls_are_keys(child);
                lemma_keys_of_merged_maps(
                    self.urls_map_of_children(r, (n - 1) as nat),
                    self.urls_map_under(child),
                );
            }
        }
    }

    /// Whatever the dictionary of a source lists under a URL is a feed with
    /// that URL that the walk comes to, and no entry is without a reference.
    pub proof fn lemma_urls_map_lists_feeds_only(&self, r: Reference)
        ensures
            no_empty_entries(self.urls_map_under(r)),
            forall|k: Seq<char>, x: Reference| #[trigger]
                lists(self.urls_map_under(r), k, x) ==> self.reaches(r, x) && self@[x] is Feed
                    && self@[x]->Feed_url == k,
        decreases self.measure(r), 1nat, 0nat,
    {
        if self@.contains_key(r) {
            if self@[r] is Feed {
                let all = self.urls_map_under(r);
                assert forall|k: Seq<char>, x: Reference| #[trigger] lists(all, k, x) implies self.reaches(
                    r,
                    x,
                ) && self@[x] is Feed && self@[x]->Feed_url == k by {
                    let i = choose|i: int|
                        0 <= i < all.len() && (#[trigger] all[i]).0 == k && all[i].1.contains(x);
                    let w = choose|w: int| 0 <= w < all[i].1.len() && all[i].1[w] == x;
                    assert(x == r);
                }
            } else {
                self.lemma_urls_map_of_children_lists_feeds_only(r, self@[r].children().len());
            }
        }
    }

    /// The same of the dictionary of the first `n` children of a source.
    pub proof fn lemma_urls_map_of_children_lists_feeds_only(&self, r: Reference, n: nat)
        ensures
            no_empty_entries(self.urls_map_of_children(r, n)),
            forall|k: Seq<char>, x: Reference| #[trigger]
                lists(self.urls_map_of_children(r, n), k, x) ==> self.reaches(r, x) && self@[x] is Feed
                    && self@[x]->Feed_url == k,
        decreases self.measure(r), 0nat, n,
    {
        if !(n == 0 || !self@.contains_key(r) || n > self@[r].children().len()) {
            let rest = self.urls_map_of_children(r, (n - 1) as nat);
            let child = self@[r].children()[n - 1];
            self.lemma_urls_map_of_children_lists_feeds_only(r, (n - 1) as nat);
            if self.descends(r, child) {
                self.lemma_urls_map_lists_feeds_only(child);
                lemma_merged_maps_lists_no_more(rest, self.urls_map_under(child));
                assert forall|k: Seq<char>, x: Reference| #[trigger]
                    lists(self.urls_map_of_children(r, n), k, x) implies self.reaches(r, x)
                    && self@[x] is Feed && self@[x]->Feed_url == k by {
                    if !lists(rest, k, x) {
                        assert(lists(self.urls_map_under(child), k, x));
                        assert(self.descends(r, self@[r].children()[n - 1]) && self.reaches(
                            self@[r].children()[n - 1],
                            x,
                        ));
                    }
                }
            }
        }
    }

    /// Where the walk from a source comes to no feed, the dictionary of the
    /// source is empty.
    pub proof fn lemma_no_feeds_no_urls(&self, r: Reference)
        requires
            forall|x: Reference| self.reaches(r, x) ==> !(self@[x] is Feed),
        ensures
            self.urls_map_under(r).len() == 0,
    {
        let all = self.urls_map_under(r);
        self.lemma_urls_map_lists_feeds_only(r);
        if all.len() > 0 {
            let x = all[0].1[0];
            assert(all[0].0 == all[0].0 && all[0].1.contains(x));
            assert(lists(all, all[0].0, x));
        }
    }

    /// The URLs of a source are the URLs of the feeds that the walk from the
    /// source comes to, and no others.
    pub proof fn lemma_urls_are_those_of_feeds(&self, r: Reference, url: Seq<char>)
        ensures
            self.urls_under(r).contains(url) <==> exists|x: Reference| #[trigger]
                self.reaches(r, x) && self@[x] is Feed && self@[x]->Feed_url == url,
    {
        let all = self.urls_map_under(r);
        self.lemma_urls_are_keys(r);
        self.lemma_urls_map_lists_feeds_only(r);
        if self.urls_under(r).contains(url) {
            let i = choose|i: int| 0 <= i < keys_of(all).len() && keys_of(all)[i] == url;
            let x = all[i].1[0];
            assert(all[i].0 == url && all[i].1.contains(x));
            assert(lists(all, url, x));
            assert(self.reaches(r, x) && self@[x] is Feed && self@[x]->Feed_url == url);
        }
        if exists|x: Reference| #[trigger]
            self.reaches(r, x) && self@[x] is Feed && self@[x]->Feed_url == url {
            let x = choose|x: Reference| #[trigger]
                self.reaches(r, x) && self@[x] is Feed && self@[x]->Feed_url == url;
            self.lemma_urls_map_lists_every_feed(r, x);
            let i = choose|i: int|
                0 <= i < all.len() && (#[trigger] all[i]).0 == url && all[i].1.contains(x);
            assert(keys_of(all)[i] == url);
        }
    }

    /// In an ordered arena the walk comes from a source to each of its
    /// children that resolve.
    pub proof fn lemma_reaches_children(&self, r: Reference, i: int)
        requires
            self.wf(),
            self.ordered(),
            self@.contains_key(r),
            0 <= i < self@[r].children().len(),
            self@.contains_key(self@[r].children()[i]),
        ensures
            self.reaches(r, self@[r].children()[i]),
    {
        self.lemma_descends(r, i);
        assert(self.reaches(self@[r].children()[i], self@[r].children()[i]));
    }
}

} // verus!
