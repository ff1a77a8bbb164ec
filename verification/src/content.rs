//! The model of the reader: the tree of sources with the directory that is
//! open and the source that is selected, the list of the open directory, the
//! tidings on show, and the progress of the update

use vstd::prelude::*;
use crate::arena::SourcesArena;
use crate::dictionary::Dictionary;
use crate::reference::Reference;
use crate::source::{ArenaSource, ListSource, SourceView};
use crate::tiding::{duplicate_tidings, tidings_view, Tiding};
use crate::update;
use crate::update::without;
use crate::urls::{keys_of, urls_map_view, urls_view, URLsMap};

verus! {

/// Mathematical value of a list of sources
pub open spec fn list_view(list: Seq<ListSource>) -> Seq<(SourceView, Reference)> {
    list.map_values(|entry: ListSource| entry@)
}

/// The list projection of a directory: for each child that resolves, in the
/// order of the children, the source and its reference; the root has no
/// place in a list
pub open spec fn projected(entries: Map<Reference, SourceView>, children: Seq<Reference>) -> Seq<
    (SourceView, Reference),
>
    decreases children.len(),
{
    if children.len() == 0 {
        Seq::empty()
    } else {
        let rest = projected(entries, children.drop_last());
        let child = children.last();
        if entries.contains_key(child) && !(entries[child] is RootDirectory) {
            rest.push((entries[child], child))
        } else {
            rest
        }
    }
}

/// The tidings of the URLs, in the order of the URLs; a URL without tidings
/// adds nothing
pub open spec fn content_of(dictionary: Map<Seq<char>, Seq<Seq<char>>>, urls: Seq<Seq<char>>) -> Seq<
    Seq<char>,
>
    decreases urls.len(),
{
    if urls.len() == 0 {
        Seq::empty()
    } else {
        let rest = content_of(dictionary, urls.drop_last());
        if dictionary.contains_key(urls.last()) {
            rest + dictionary[urls.last()]
        } else {
            rest
        }
    }
}

/// The sources after the updating status was set on each of the references
/// in turn; a reference that does not resolve is passed over
pub open spec fn marked_all(
    entries: Map<Reference, SourceView>,
    indices: Seq<Reference>,
    status: bool,
) -> Map<Reference, SourceView>
    decreases indices.len(),
{
    if indices.len() == 0 {
        entries
    } else {
        let rest = marked_all(entries, indices.drop_last(), status);
        if rest.contains_key(indices.last()) {
            rest.insert(indices.last(), rest[indices.last()].with_updating(status))
        } else {
            rest
        }
    }
}

/// Where a new child goes when it is to follow `selected`: behind the first
/// place at which `selected` stands among the children, or at the end where
/// it stands at none
pub open spec fn position_after(children: Seq<Reference>, selected: Reference) -> int {
    match children.index_of_first(selected) {
        Some(first) => first + 1,
        None => children.len() as int,
    }
}

/// Find where a new child goes when it is to follow `selected`
pub fn find_position_after(children: &Vec<Reference>, selected: Reference) -> (res: usize)
    ensures
        res == position_after(children@, selected),
        res <= children.len(),
{
    let mut i: usize = 0;
    while i < children.len()
        invariant
            i <= children.len(),
            forall|j: int| 0 <= j < i ==> children@[j] != selected,
        decreases children.len() - i,
    {
        if children[i] == selected {
            proof {
                assert(children@.contains(selected));
                children@.index_of_first_ensures(selected);
            }
            return i + 1;
        }
        i += 1;
    }
    proof {
        children@.index_of_first_ensures(selected);
    }
    children.len()
}

/// Build the list projection of a directory from its children
pub fn project(arena: &SourcesArena, children: &Vec<Reference>) -> (res: Vec<ListSource>)
    ensures
        list_view(res@) == projected(arena@, children@),
{
    let mut list: Vec<ListSource> = Vec::new();
    let mut i: usize = 0;
    proof {
        assert(children@.take(0) =~= Seq::empty());
        assert(list_view(list@) =~= Seq::empty());
    }
    while i < children.len()
        invariant
            i <= children.len(),
            list_view(list@) == projected(arena@, children@.take(i as int)),
        decreases children.len() - i,
    {
        let child_index = children[i];
        let ghost prior = list@;
        proof {
            assert(children@.take(i + 1).drop_last() =~= children@.take(i as int));
            assert(children@.take(i + 1).last() == child_index);
        }
        if let Some(child_arena_source) = arena.get(child_index) {
            if let Some(child_list_source) = child_arena_source.duplicate().into_list_source(
                child_index,
            ) {
                list.push(child_list_source);
                proof {
                    assert(list_view(list@) =~= list_view(prior).push(child_list_source@));
                }
            }
        }
        i += 1;
    }
    proof {
        assert(children@.take(children@.len() as int) =~= children@);
    }
    list
}

/// Gather the tidings of the URLs from the dictionary
pub fn collect_tidings(dictionary: &Dictionary, urls: &Vec<String>) -> (res: Vec<Tiding>)
    ensures
        tidings_view(res@) == content_of(dictionary@, urls_view(urls@)),
{
    let ghost all = urls_view(urls@);
    let mut list: Vec<Tiding> = Vec::new();
    let mut i: usize = 0;
    proof {
        assert(all.take(0) =~= Seq::empty());
        assert(tidings_view(list@) =~= Seq::empty());
    }
    while i < urls.len()
        invariant
            i <= urls.len(),
            all == urls_view(urls@),
            tidings_view(list@) == content_of(dictionary@, all.take(i as int)),
        decreases urls.len() - i,
    {
        let ghost prior = list@;
        proof {
            assert(all.take(i + 1).drop_last() =~= all.take(i as int));
            assert(all.take(i + 1).last() == urls@[i as int]@);
        }
        if let Some(tidings) = dictionary.get(urls[i].as_str()) {
            let mut copy = duplicate_tidings(tidings);
            let ghost added = copy@;
            list.append(&mut copy);
            proof {
                assert(tidings_view(list@) =~= tidings_view(prior) + tidings_view(added));
            }
        }
        i += 1;
    }
    proof {
        assert(all.take(all.len() as int) =~= all);
    }
    list
}

/// Model
pub struct Model {
    /// Is the leaflet folded?
    pub folded: bool,
    /// Show tidings in the folded state?
    pub show_tidings: bool,
    /// Sources list (feeds and directories) of the current root
    pub sources_list: Vec<ListSource>,
    /// Sources arena
    pub sources_arena: SourcesArena,
    /// Sources subtitle
    pub sources_subtitle: String,
    /// Arena index of the root of all sources
    pub main_root_index: Reference,
    /// Arena index of the currently selected directory
    pub current_root_index: Reference,
    /// Arena index of the currently selected source
    pub current_source_index: Reference,
    /// Tidings list
    pub tidings_list: Vec<Tiding>,
    /// Dictionary of (URL, tidings) key-value pairs
    pub tidings_dictionary: Dictionary,
    /// Is the update running?
    pub updating: bool,
    /// Number of requests handled (including failed ones)
    pub update_handled: usize,
    /// Number of URLs requested for update
    pub update_requested: usize,
    /// Number of the last update session
    pub update_sessions: u64,
    /// Handle of the running update
    pub update_worker: Option<update::Model>,
}

/// Messages
#[derive(Debug)]
pub enum Msg {
    /// Navigate back through the content
    Back,
    /// Set the folding state
    SetFolded(bool),
    /// Add the feed (title, URL) after the current source
    AddFeed(String, String),
    /// Add the directory after the current source
    AddDirectory(String),
    /// Start the update of all feeds
    StartUpdateAll,
    /// Stop the update of all feeds
    StopUpdateAll,
    /// Toggle the update of all feeds
    ToggleUpdateAll,
    /// Update of the feeds of one URL has started, within the session
    UpdateStarted(u64, Vec<Reference>),
    /// Insert the tidings at the specified URL, fetched within the session
    /// for these feeds
    Insert(u64, Vec<Reference>, String, Vec<Tiding>),
    /// Show the tidings from the current root source
    ShowCurrentRoot,
    /// Show the tidings from the particular source in the list
    ShowFromList(i32),
}

/// The number of the session that follows
pub open spec fn next_session(sessions: u64) -> u64 {
    if sessions < u64::MAX {
        (sessions + 1) as u64
    } else {
        0
    }
}

impl Model {
    /// The sources, each under its reference
    pub open spec fn sources(&self) -> Map<Reference, SourceView> {
        self.sources_arena@
    }

    /// The children of the current root
    pub open spec fn root_children(&self) -> Seq<Reference> {
        self.sources()[self.current_root_index].children()
    }

    /// The session of the running update
    pub open spec fn session(&self) -> Option<u64> {
        match self.update_worker {
            Some(worker) => Some(worker.session),
            None => None,
        }
    }

    /// The URLs whose units are still out
    pub open spec fn pending(&self) -> Seq<Seq<char>> {
        match self.update_worker {
            Some(worker) => urls_view(worker.pending@),
            None => Seq::empty(),
        }
    }

    /// The tree is sound: the sources form a forest, the root of all
    /// sources is a root, the current root is a directory, and the selected
    /// source resolves
    pub open spec fn sources_wf(&self) -> bool {
        &&& self.sources_arena.wf()
        &&& self.sources_arena.ordered()
        &&& self.sources().contains_key(self.main_root_index)
        &&& self.sources()[self.main_root_index] is RootDirectory
        &&& self.sources().contains_key(self.current_root_index)
        &&& self.sources()[self.current_root_index].is_dir()
        &&& self.sources().contains_key(self.current_source_index)
    }

    /// The list of sources mirrors the children of the current root, under
    /// the title of the current root
    pub open spec fn sources_list_wf(&self) -> bool {
        &&& list_view(self.sources_list@) == projected(self.sources(), self.root_children())
        &&& self.sources_subtitle@ == self.sources()[self.current_root_index].title()
    }

    /// The list of tidings holds the tidings of every URL at and beneath the
    /// selected source
    pub open spec fn tidings_list_wf(&self) -> bool {
        tidings_view(self.tidings_list@) == content_of(
            self.tidings_dictionary@,
            self.sources_arena.urls_under(self.current_source_index),
        )
    }

    /// The progress is sound: something was requested, and no more is
    /// handled than was requested; an update runs exactly while its handle
    /// is held, and then some URL is still out, no URL is out twice, and the
    /// URLs handled and those that are out make up those requested
    pub open spec fn update_wf(&self) -> bool {
        &&& self.update_requested >= 1
        &&& self.update_handled <= self.update_requested
        &&& self.updating == (self.update_worker is Some)
        &&& self.update_worker is Some ==> {
            &&& self.update_worker->0.wf()
            &&& self.update_worker->0.pending@.len() > 0
            &&& self.update_handled + self.update_worker->0.pending@.len() == self.update_requested
        }
    }

    /// The model is sound
    pub open spec fn wf(&self) -> bool {
        &&& self.sources_wf()
        &&& self.sources_list_wf()
        &&& self.tidings_list_wf()
        &&& self.update_wf()
    }

    /// Neither the arena nor the root of all sources has changed
    pub open spec fn same_sources(pre: Model, post: Model) -> bool {
        &&& post.sources_arena == pre.sources_arena
        &&& post.main_root_index == pre.main_root_index
    }

    /// Neither pointer nor the state of the leaflet has changed
    pub open spec fn same_navigation(pre: Model, post: Model) -> bool {
        &&& post.current_root_index == pre.current_root_index
        &&& post.current_source_index == pre.current_source_index
        &&& post.folded == pre.folded
        &&& post.show_tidings == pre.show_tidings
    }

    /// The dictionary of tidings has not changed
    pub open spec fn same_dictionary(pre: Model, post: Model) -> bool {
        post.tidings_dictionary@ == pre.tidings_dictionary@
    }

    /// The state of the update has not changed
    pub open spec fn same_update(pre: Model, post: Model) -> bool {
        &&& post.updating == pre.updating
        &&& post.update_handled == pre.update_handled
        &&& post.update_requested == pre.update_requested
        &&& post.update_sessions == pre.update_sessions
        &&& post.session() == pre.session()
        &&& post.pending() == pre.pending()
    }

    /// Initialize the model: an arena with the root of all sources, which
    /// is open and selected, and nothing else
    pub fn new() -> (res: Self)
        ensures
            res.wf(),
            res.current_root_index == res.main_root_index,
            res.current_source_index == res.main_root_index,
            res.sources() =~= Map::empty().insert(
                res.main_root_index,
                SourceView::RootDirectory { children: Seq::empty() },
            ),
            res.sources_list@.len() == 0,
            res.tidings_list@.len() == 0,
            forall|url: Seq<char>| !res.tidings_dictionary@.contains_key(url),
            !res.folded,
            !res.show_tidings,
            !res.updating,
            res.update_handled == 0,
            res.update_requested == 1,
            res.update_sessions == 0,
    {
        let mut sources_arena = SourcesArena::new();
        let root_index = sources_arena.insert(ArenaSource::new_root());
        let res = Model {
            folded: false,
            show_tidings: false,
            sources_list: Vec::new(),
            sources_arena,
            sources_subtitle: String::new(),
            main_root_index: root_index,
            current_root_index: root_index,
            current_source_index: root_index,
            tidings_list: Vec::new(),
            tidings_dictionary: Dictionary::new(),
            updating: false,
            update_handled: 0,
            update_requested: 1,
            update_sessions: 0,
            update_worker: None,
        };
        proof {
            assert(list_view(res.sources_list@) =~= Seq::empty());
            assert(tidings_view(res.tidings_list@) =~= Seq::empty());
            assert(res.sources_arena.urls_under(root_index) =~= Seq::empty());
        }
        res
    }

    /// Get a dictionary of the (URL, references) pairs of all feeds
    pub fn urls_map(&self) -> (res: URLsMap)
        requires
            self.sources_wf(),
        ensures
            urls_map_view(res@) == self.sources_arena.urls_map_under(self.main_root_index),
    {
        self.sources_arena.urls_map(self.main_root_index)
    }

    /// Refresh the list of sources with the sources under the current root
    pub fn refresh_sources(&mut self)
        requires
            old(self).sources_wf(),
        ensures
            final(self).sources_wf(),
            final(self).sources_list_wf(),
            Self::same_sources(*old(self), *final(self)),
            Self::same_navigation(*old(self), *final(self)),
            Self::same_dictionary(*old(self), *final(self)),
            Self::same_update(*old(self), *final(self)),
            final(self).update_worker == old(self).update_worker,
            final(self).tidings_list == old(self).tidings_list,
    {
        match self.sources_arena.get(self.current_root_index) {
            Some(root) => {
                self.sources_subtitle = root.title();
                if let Some(children) = root.children() {
                    self.sources_list = project(&self.sources_arena, children);
                }
            },
            None => {
                self.sources_list = Vec::new();
            },
        }
    }

    /// Refresh the list of tidings with the tidings of the currently selected source
    pub fn refresh_tidings(&mut self)
        requires
            old(self).sources_wf(),
        ensures
            final(self).sources_wf(),
            final(self).tidings_list_wf(),
            Self::same_sources(*old(self), *final(self)),
            Self::same_navigation(*old(self), *final(self)),
            Self::same_dictionary(*old(self), *final(self)),
            Self::same_update(*old(self), *final(self)),
            final(self).update_worker == old(self).update_worker,
            final(self).sources_list == old(self).sources_list,
            final(self).sources_subtitle == old(self).sources_subtitle,
    {
        let urls = self.sources_arena.urls(self.current_source_index);
        self.tidings_list = collect_tidings(&self.tidings_dictionary, &urls);
    }

    /// What showing a source does: a reference that does not resolve changes
    /// nothing; a directory becomes the current root; the source becomes
    /// the selected one; in the folded state the tidings come into view,
    /// unless a directory was entered
    pub open spec fn shown(pre: Model, post: Model, index: Reference) -> bool {
        &&& Self::same_sources(pre, post)
        &&& Self::same_dictionary(pre, post)
        &&& Self::same_update(pre, post)
        &&& post.folded == pre.folded
        &&& if !pre.sources().contains_key(index) {
            Self::same_navigation(pre, post)
        } else {
            let dir = pre.sources()[index].is_dir();
            &&& post.current_source_index == index
            &&& post.current_root_index == if dir {
                index
            } else {
                pre.current_root_index
            }
            &&& post.show_tidings == (pre.show_tidings || (pre.folded && (!dir || index
                == pre.current_root_index)))
        }
    }

    /// Show the source by the index
    pub fn show_source(&mut self, index: Reference)
        requires
            old(self).wf(),
        ensures
            final(self).wf(),
            Self::shown(*old(self), *final(self), index),
    {
        let is_dir = match self.sources_arena.get(index) {
            Some(source) => source.is_dir(),
            None => {
                return ;
            },
        };
        if is_dir {
            if index == self.current_root_index {
                if self.folded {
                    self.show_tidings = true;
                }
            } else {
                self.current_root_index = index;
                self.refresh_sources();
            }
            if self.current_source_index != index {
                self.current_source_index = index;
                self.refresh_tidings();
            }
        } else {
            if self.current_source_index != index {
                self.current_source_index = index;
                self.refresh_tidings();
            }
            if self.folded {
                self.show_tidings = true;
            }
        }
    }

    /// What going up does: the parent of the current root becomes the
    /// current root; at the root of all sources nothing changes
    pub open spec fn ascended(pre: Model, post: Model) -> bool {
        &&& Self::same_sources(pre, post)
        &&& Self::same_dictionary(pre, post)
        &&& Self::same_update(pre, post)
        &&& post.folded == pre.folded
        &&& post.show_tidings == pre.show_tidings
        &&& post.current_source_index == pre.current_source_index
        &&& post.current_root_index == match pre.sources()[pre.current_root_index].parent_index() {
            Some(parent_index) => parent_index,
            None => pre.current_root_index,
        }
    }

    /// Go one level up in the tree
    pub fn ascend(&mut self)
        requires
            old(self).wf(),
        ensures
            final(self).wf(),
            Self::ascended(*old(self), *final(self)),
    {
        let parent = match self.sources_arena.get(self.current_root_index) {
            Some(root) => root.parent_index(),
            None => None,
        };
        if let Some(parent_index) = parent {
            self.current_root_index = parent_index;
            self.refresh_sources();
        }
    }

    /// What navigating back does: the tidings go out of view if they were
    /// in view; else the tree is left one level up
    pub open spec fn went_back(pre: Model, post: Model) -> bool {
        if pre.show_tidings {
            &&& Self::same_sources(pre, post)
            &&& Self::same_dictionary(pre, post)
            &&& Self::same_update(pre, post)
            &&& post.folded == pre.folded
            &&& !post.show_tidings
            &&& post.current_source_index == pre.current_source_index
            &&& post.current_root_index == pre.current_root_index
        } else {
            Self::ascended(pre, post)
        }
    }

    /// Navigate back through the content
    pub fn back(&mut self)
        requires
            old(self).wf(),
        ensures
            final(self).wf(),
            Self::went_back(*old(self), *final(self)),
    {
        if self.show_tidings {
            self.show_tidings = false;
        } else {
            self.ascend();
        }
    }

    /// Can the source be added under the current root? It can when it names
    /// the current root as its parent and has no children of its own.
    pub open spec fn accepts(&self, source: SourceView) -> bool {
        source.parent_index() == Some(self.current_root_index) && source.children().len() == 0
    }

    /// Where a new source goes among the children of the current root: to
    /// the end when the current root is selected, else behind the selected
    /// source where that is a child of the current root, else to the end
    pub open spec fn insert_position(&self) -> int {
        if self.current_root_index == self.current_source_index {
            self.root_children().len() as int
        } else {
            position_after(self.root_children(), self.current_source_index)
        }
    }

    /// What inserting a source does: a source that cannot be added changes
    /// nothing; else it stands in the arena under a reference that did not
    /// resolve before, and that reference stands among the children of the
    /// current root at the position, or at their end where the position lies
    /// behind it
    pub open spec fn placed(
        pre: Model,
        post: Model,
        source: SourceView,
        position: int,
        res: Option<Reference>,
    ) -> bool {
        &&& Self::same_navigation(pre, post)
        &&& Self::same_dictionary(pre, post)
        &&& Self::same_update(pre, post)
        &&& post.main_root_index == pre.main_root_index
        &&& pre.sources_arena.extended_by(&post.sources_arena)
        &&& if !pre.accepts(source) {
            res is None && post.sources_arena == pre.sources_arena
        } else {
            &&& res is Some
            &&& !pre.sources().contains_key(res->0)
            &&& post.sources() == pre.sources().insert(res->0, source).insert(
                pre.current_root_index,
                pre.sources()[pre.current_root_index].with_child_at(position, res->0),
            )
        }
    }

    /// What adding a source does: it is inserted at the insert position
    pub open spec fn added(pre: Model, post: Model, source: SourceView, res: Option<Reference>) -> bool {
        Self::placed(pre, post, source, pre.insert_position(), res)
    }

    /// Insert the source at this position among the children of the current
    /// root; a source that names another parent, or brings children, is
    /// passed over
    pub fn insert_source(&mut self, new_arena_source: ArenaSource, new_list_index: usize) -> (res: Option<
        Reference,
    >)
        requires
            old(self).wf(),
        ensures
            final(self).wf(),
            Self::placed(*old(self), *final(self), new_arena_source@, new_list_index as int, res),
    {
        let under_root = match new_arena_source.parent_index() {
            Some(parent_index) => parent_index == self.current_root_index,
            None => false,
        };
        let childless = match new_arena_source.children() {
            Some(children) => children.len() == 0,
            None => true,
        };
        if !under_root || !childless {
            return None;
        }
        let new_arena_index = self.sources_arena.insert(new_arena_source);
        self.sources_arena.insert_child(self.current_root_index, new_list_index, new_arena_index);
        self.refresh_sources();
        self.refresh_tidings();
        Some(new_arena_index)
    }

    /// Add a new source to the tree, behind the selected source
    pub fn add_source(&mut self, new_arena_source: ArenaSource) -> (res: Option<Reference>)
        requires
            old(self).wf(),
        ensures
            final(self).wf(),
            Self::added(*old(self), *final(self), new_arena_source@, res),
    {
        let position = match self.sources_arena.get(self.current_root_index) {
            Some(root) => match root.children() {
                Some(children) => if self.current_root_index == self.current_source_index {
                    children.len()
                } else {
                    find_position_after(children, self.current_source_index)
                },
                None => 0,
            },
            None => 0,
        };
        self.insert_source(new_arena_source, position)
    }

    /// Set the updating status of each of the sources
    pub fn set_updating(&mut self, indices: &Vec<Reference>, status: bool)
        requires
            old(self).sources_wf(),
        ensures
            final(self).sources_wf(),
            final(self).sources() == marked_all(old(self).sources(), indices@, status),
            old(self).sources_arena.extended_by(&final(self).sources_arena),
            final(self).main_root_index == old(self).main_root_index,
            Self::same_navigation(*old(self), *final(self)),
            Self::same_dictionary(*old(self), *final(self)),
            Self::same_update(*old(self), *final(self)),
            final(self).update_worker == old(self).update_worker,
    {
        let mut i: usize = 0;
        proof {
            assert(indices@.take(0) =~= Seq::empty());
        }
        while i < indices.len()
            invariant
                i <= indices.len(),
                self.sources_wf(),
                self.sources() == marked_all(old(self).sources(), indices@.take(i as int), status),
                old(self).sources_arena.extended_by(&self.sources_arena),
                self.main_root_index == old(self).main_root_index,
                Self::same_navigation(*old(self), *self),
                Self::same_dictionary(*old(self), *self),
                Self::same_update(*old(self), *self),
                self.update_worker == old(self).update_worker,
            decreases indices.len() - i,
        {
            proof {
                assert(indices@.take(i + 1).drop_last() =~= indices@.take(i as int));
                assert(indices@.take(i + 1).last() == indices@[i as int]);
            }
            self.sources_arena.set_updating(indices[i], status);
            i += 1;
        }
        proof {
            assert(indices@.take(indices@.len() as int) =~= indices@);
        }
    }

    /// Does the update of this session run?
    pub open spec fn live(&self, session: u64) -> bool {
        self.session() == Some(session)
    }

    /// Is the unit of this URL out, within this session?
    pub open spec fn awaits(&self, session: u64, url: Seq<char>) -> bool {
        self.live(session) && self.pending().contains(url)
    }

    /// What starting the update of a subtree does: with no feed at or
    /// beneath the source nothing changes and there is no work order; else
    /// a new session runs, with nothing handled and every URL of the subtree
    /// requested and out, and the work order names the session and holds
    /// the dictionary of the subtree. A session that ran before is over.
    pub open spec fn started_under(
        pre: Model,
        post: Model,
        index: Reference,
        res: Option<update::Msg>,
    ) -> bool {
        let urls_map = pre.sources_arena.urls_map_under(index);
        &&& Self::same_sources(pre, post)
        &&& Self::same_navigation(pre, post)
        &&& Self::same_dictionary(pre, post)
        &&& if urls_map.len() == 0 {
            res is None && Self::same_update(pre, post)
        } else {
            &&& res is Some
            &&& res->0->UpdateAll_0 == next_session(pre.update_sessions)
            &&& urls_map_view(res->0->UpdateAll_1@) == urls_map
            &&& post.updating
            &&& post.update_handled == 0
            &&& post.update_requested == urls_map.len()
            &&& post.update_sessions == next_session(pre.update_sessions)
            &&& post.session() == Some(next_session(pre.update_sessions))
            &&& post.pending() == keys_of(urls_map)
        }
    }

    /// What starting the update of all feeds does: the update of the
    /// subtree of the root of all sources starts
    pub open spec fn started(pre: Model, post: Model, res: Option<update::Msg>) -> bool {
        Self::started_under(pre, post, pre.main_root_index, res)
    }

    /// Start the update of the feeds at and beneath the source; the work
    /// order that comes back is to be carried out, one unit per URL
    pub fn start_update(&mut self, index: Reference) -> (res: Option<update::Msg>)
        requires
            old(self).wf(),
        ensures
            final(self).wf(),
            Self::started_under(*old(self), *final(self), index, res),
    {
        let urls_map = self.sources_arena.urls_map(index);
        if urls_map.len() == 0 {
            return None;
        }
        let session = if self.update_sessions < u64::MAX {
            self.update_sessions + 1
        } else {
            0
        };
        let worker = update::Model::new(session, &urls_map);
        proof {
            let entries = urls_map_view(urls_map@);
            self.sources_arena.lemma_urls_map_keys_unique(index);
            assert forall|i: int, j: int|
                0 <= i < keys_of(entries).len() && 0 <= j < keys_of(entries).len() && i
                    != j implies keys_of(entries)[i] != keys_of(entries)[j] by {
                if i < j {
                    assert(entries[i].0 != entries[j].0);
                } else {
                    assert(entries[j].0 != entries[i].0);
                }
            }
        }
        self.update_sessions = session;
        self.update_requested = urls_map.len();
        self.update_handled = 0;
        self.update_worker = Some(worker);
        self.updating = true;
        Some(update::Msg::UpdateAll(session, urls_map))
    }

    /// Start the update of all feeds
    pub fn start_update_all(&mut self) -> (res: Option<update::Msg>)
        requires
            old(self).wf(),
        ensures
            final(self).wf(),
            Self::started(*old(self), *final(self), res),
    {
        let index = self.main_root_index;
        self.start_update(index)
    }

    /// What stopping the update does: no update runs, no unit is out any
    /// more; the numbers stay
    pub open spec fn stopped(pre: Model, post: Model) -> bool {
        &&& Self::same_sources(pre, post)
        &&& Self::same_navigation(pre, post)
        &&& Self::same_dictionary(pre, post)
        &&& !post.updating
        &&& post.session() is None
        &&& post.pending().len() == 0
        &&& post.update_handled == pre.update_handled
        &&& post.update_requested == pre.update_requested
        &&& post.update_sessions == pre.update_sessions
    }

    /// Stop the update of all feeds: the handle is dropped, and what comes
    /// back from its units later finds no session
    pub fn stop_update_all(&mut self)
        requires
            old(self).wf(),
        ensures
            final(self).wf(),
            Self::stopped(*old(self), *final(self)),
    {
        self.update_worker = None;
        self.updating = false;
    }

    /// What toggling the update does: it stops a running update, and starts
    /// one where none runs
    pub open spec fn toggled(pre: Model, post: Model, res: Option<update::Msg>) -> bool {
        if pre.updating {
            Self::stopped(pre, post) && res is None
        } else {
            Self::started(pre, post, res)
        }
    }

    /// Toggle the update of all feeds
    pub fn toggle_update_all(&mut self) -> (res: Option<update::Msg>)
        requires
            old(self).wf(),
        ensures
            final(self).wf(),
            Self::toggled(*old(self), *final(self), res),
    {
        if self.updating {
            self.stop_update_all();
            None
        } else {
            self.start_update_all()
        }
    }

    /// What the start of a unit does: within the running session each of
    /// its feeds is marked as updating; from any other session it changes
    /// nothing
    pub open spec fn marked(pre: Model, post: Model, session: u64, indices: Seq<Reference>) -> bool {
        &&& Self::same_navigation(pre, post)
        &&& Self::same_dictionary(pre, post)
        &&& Self::same_update(pre, post)
        &&& post.main_root_index == pre.main_root_index
        &&& pre.sources_arena.extended_by(&post.sources_arena)
        &&& if pre.live(session) {
            post.sources() == marked_all(pre.sources(), indices, true)
        } else {
            post.sources_arena == pre.sources_arena
        }
    }

    /// Take note that the update of these feeds has started
    pub fn update_started(&mut self, session: u64, indices: Vec<Reference>)
        requires
            old(self).wf(),
        ensures
            final(self).wf(),
            Self::marked(*old(self), *final(self), session, indices@),
    {
        let live = match &self.update_worker {
            Some(worker) => worker.session == session,
            None => false,
        };
        if live {
            self.set_updating(&indices, true);
            self.refresh_sources();
            self.refresh_tidings();
        }
    }

    /// What the end of a unit does: where the unit was out within the
    /// running session, its tidings replace those under the URL, one more
    /// request is handled, none of its feeds is updating any more, and the
    /// session is over once no unit is out; any other unit changes nothing
    pub open spec fn inserted(
        pre: Model,
        post: Model,
        session: u64,
        indices: Seq<Reference>,
        url: Seq<char>,
        tidings: Seq<Seq<char>>,
    ) -> bool {
        &&& Self::same_navigation(pre, post)
        &&& post.main_root_index == pre.main_root_index
        &&& pre.sources_arena.extended_by(&post.sources_arena)
        &&& post.update_requested == pre.update_requested
        &&& post.update_sessions == pre.update_sessions
        &&& if !pre.awaits(session, url) {
            &&& post.sources_arena == pre.sources_arena
            &&& Self::same_dictionary(pre, post)
            &&& Self::same_update(pre, post)
        } else {
            let rest = without(pre.pending(), url);
            &&& post.tidings_dictionary@ == pre.tidings_dictionary@.insert(url, tidings)
            &&& post.update_handled == pre.update_handled + 1
            &&& post.sources() == marked_all(pre.sources(), indices, false)
            &&& post.updating == (rest.len() > 0)
            &&& post.pending() == rest
            &&& post.session() == if rest.len() > 0 {
                Some(session)
            } else {
                None
            }
        }
    }

    /// Insert the tidings that a unit has fetched for the URL
    pub fn insert(&mut self, session: u64, indices: Vec<Reference>, url: String, tidings: Vec<Tiding>)
        requires
            old(self).wf(),
        ensures
            final(self).wf(),
            Self::inserted(*old(self), *final(self), session, indices@, url@, tidings_view(tidings@)),
    {
        let accepted = match &mut self.update_worker {
            Some(worker) => worker.session == session && worker.complete(&url),
            None => false,
        };
        if !accepted {
            return ;
        }
        proof {
            assert(self.pending().len() == old(self).pending().len() - 1);
        }
        self.tidings_dictionary.insert(url, tidings);
        self.update_handled = self.update_handled + 1;
        let finished = match &self.update_worker {
            Some(worker) => worker.pending.len() == 0,
            None => true,
        };
        if finished {
            proof {
                assert(self.pending() =~= Seq::empty());
            }
            self.update_worker = None;
            self.updating = false;
        }
        self.set_updating(&indices, false);
        self.refresh_sources();
        self.refresh_tidings();
    }

    /// Do the tidings of one of these feeds belong to what is on show? They
    /// do where the selected source is one of the feeds, or a directory
    /// above one of them
    pub open spec fn concerns(&self, indices: Seq<Reference>) -> bool {
        self.sources().contains_key(self.current_source_index) && if self.sources()[self.current_source_index].is_dir() {
            exists|i: int|
                0 <= i < indices.len() && self.sources_arena.beneath(
                    #[trigger] indices[i],
                    self.current_source_index,
                )
        } else {
            indices.contains(self.current_source_index)
        }
    }

    /// Decide whether new tidings of these feeds change what is on show
    pub fn concerns_current_source(&self, indices: &Vec<Reference>) -> (res: bool)
        requires
            self.sources_wf(),
        ensures
            res == self.concerns(indices@),
    {
        let is_dir = match self.sources_arena.get(self.current_source_index) {
            Some(current_source) => current_source.is_dir(),
            None => {
                return false;
            },
        };
        let mut i: usize = 0;
        while i < indices.len()
            invariant
                i <= indices.len(),
                self.sources_wf(),
                self.sources().contains_key(self.current_source_index),
                is_dir == self.sources()[self.current_source_index].is_dir(),
                forall|j: int|
                    0 <= j < i ==> if is_dir {
                        !self.sources_arena.beneath(#[trigger] indices@[j], self.current_source_index)
                    } else {
                        indices@[j] != self.current_source_index
                    },
            decreases indices.len() - i,
        {
            let found = if is_dir {
                self.sources_arena.is_child_of(indices[i], self.current_source_index)
            } else {
                indices[i] == self.current_source_index
            };
            if found {
                return true;
            }
            i += 1;
        }
        false
    }

    /// The progress of the update: how many requests are handled, and how
    /// many were made, which is never none
    pub fn progress(&self) -> (res: (usize, usize))
        requires
            self.update_wf(),
        ensures
            res == (self.update_handled, self.update_requested),
            res.0 <= res.1,
            res.1 >= 1,
    {
        (self.update_handled, self.update_requested)
    }

    /// What setting the folding state does
    pub open spec fn folded_set(pre: Model, post: Model, folded: bool) -> bool {
        &&& Self::same_sources(pre, post)
        &&& Self::same_dictionary(pre, post)
        &&& Self::same_update(pre, post)
        &&& post.folded == folded
        &&& post.show_tidings == pre.show_tidings
        &&& post.current_source_index == pre.current_source_index
        &&& post.current_root_index == pre.current_root_index
    }

    /// Set the folding state
    pub fn set_folded(&mut self, folded: bool)
        requires
            old(self).wf(),
        ensures
            final(self).wf(),
            Self::folded_set(*old(self), *final(self), folded),
    {
        self.folded = folded;
    }

    /// What activating a position of the list does: the source that the
    /// entry came from is shown; a position without an entry changes nothing
    pub open spec fn shown_from_list(pre: Model, post: Model, list_index: i32) -> bool {
        if 0 <= list_index < pre.sources_list@.len() {
            Self::shown(pre, post, pre.sources_list@[list_index as int]@.1)
        } else {
            &&& Self::same_sources(pre, post)
            &&& Self::same_navigation(pre, post)
            &&& Self::same_dictionary(pre, post)
            &&& Self::same_update(pre, post)
        }
    }

    /// Show the source at the position of the list
    pub fn show_from_list(&mut self, list_index: i32)
        requires
            old(self).wf(),
        ensures
            final(self).wf(),
            Self::shown_from_list(*old(self), *final(self), list_index),
    {
        if list_index >= 0 && (list_index as usize) < self.sources_list.len() {
            let index = self.sources_list[list_index as usize].index();
            self.show_source(index);
        }
    }

    /// What a message does to the model, and the work order that it leaves
    pub open spec fn updated(pre: Model, msg: Msg, post: Model, res: Option<update::Msg>) -> bool {
        match msg {
            Msg::Back => Self::went_back(pre, post) && res is None,
            Msg::SetFolded(folded) => Self::folded_set(pre, post, folded) && res is None,
            Msg::AddFeed(title, url) => res is None && exists|r: Option<Reference>| #[trigger]
                Self::added(
                    pre,
                    post,
                    SourceView::Feed {
                        title: title@,
                        url: url@,
                        updating: false,
                        parent_index: pre.current_root_index,
                    },
                    r,
                ),
            Msg::AddDirectory(title) => res is None && exists|r: Option<Reference>| #[trigger]
                Self::added(
                    pre,
                    post,
                    SourceView::Directory {
                        title: title@,
                        children: Seq::empty(),
                        parent_index: pre.current_root_index,
                    },
                    r,
                ),
            Msg::StartUpdateAll => Self::started(pre, post, res),
            Msg::StopUpdateAll => Self::stopped(pre, post) && res is None,
            Msg::ToggleUpdateAll => Self::toggled(pre, post, res),
            Msg::UpdateStarted(session, indices) => Self::marked(pre, post, session, indices@)
                && res is None,
            Msg::Insert(session, indices, url, tidings) => Self::inserted(
                pre,
                post,
                session,
                indices@,
                url@,
                tidings_view(tidings@),
            ) && res is None,
            Msg::ShowCurrentRoot => Self::shown(pre, post, pre.current_root_index) && res is None,
            Msg::ShowFromList(list_index) => Self::shown_from_list(pre, post, list_index)
                && res is None,
        }
    }

    /// Handle a message; a work order that comes back is to be carried out
    pub fn update(&mut self, msg: Msg) -> (res: Option<update::Msg>)
        requires
            old(self).wf(),
        ensures
            final(self).wf(),
            Self::updated(*old(self), msg, *final(self), res),
    {
        match msg {
            Msg::Back => {
                self.back();
                None
            },
            Msg::SetFolded(folded) => {
                self.set_folded(folded);
                None
            },
            Msg::AddFeed(title, url) => {
                let new_source = ArenaSource::new_feed(title, url, self.current_root_index);
                let _ = self.add_source(new_source);
                None
            },
            Msg::AddDirectory(title) => {
                let new_source = ArenaSource::new_directory(title, self.current_root_index);
                let _ = self.add_source(new_source);
                None
            },
            Msg::StartUpdateAll => self.start_update_all(),
            Msg::StopUpdateAll => {
                self.stop_update_all();
                None
            },
            Msg::ToggleUpdateAll => self.toggle_update_all(),
            Msg::UpdateStarted(session, indices) => {
                self.update_started(session, indices);
                None
            },
            Msg::Insert(session, indices, url, tidings) => {
                self.insert(session, indices, url, tidings);
                None
            },
            Msg::ShowCurrentRoot => {
                let index = self.current_root_index;
                self.show_source(index);
                None
            },
            Msg::ShowFromList(list_index) => {
                self.show_from_list(list_index);
                None
            },
        }
    }
}

/// Going up at the root of all sources leaves the current root, and
/// everything else, as it was.
pub proof fn lemma_ascend_at_root(pre: Model, post: Model)
    requires
        pre.sources_wf(),
        pre.current_root_index == pre.main_root_index,
        Model::ascended(pre, post),
    ensures
        post.current_root_index == pre.current_root_index,
        Model::same_navigation(pre, post),
        Model::same_sources(pre, post),
        Model::same_dictionary(pre, post),
        Model::same_update(pre, post),
{
}

/// A source that is added goes right behind the selected source where
/// that is a child of the current root and not the current root itself, and
/// to the end of the children otherwise.
pub proof fn lemma_added_after_selected(pre: Model, post: Model, source: SourceView, res: Option<Reference>)
    requires
        pre.sources_wf(),
        pre.accepts(source),
        Model::added(pre, post, source, res),
    ensures
        res is Some,
        post.sources().contains_key(res->0),
        post.sources()[res->0] == source,
        post.root_children() == pre.root_children().insert(pre.insert_position(), res->0),
        pre.current_root_index != pre.current_source_index && pre.root_children().contains(
            pre.current_source_index,
        ) ==> {
            let at = pre.root_children().index_of_first(pre.current_source_index)->0;
            &&& 0 <= at < pre.root_children().len()
            &&& post.root_children()[at] == pre.current_source_index
            &&& post.root_children()[at + 1] == res->0
        },
        pre.current_root_index == pre.current_source_index || !pre.root_children().contains(
            pre.current_source_index,
        ) ==> post.root_children() == pre.root_children().push(res->0),
{
    let children = pre.root_children();
    let selected = pre.current_source_index;
    children.index_of_first_ensures(selected);
    assert(res->0 != pre.current_root_index);
    if pre.current_root_index == selected || !children.contains(selected) {
        assert(children.insert(children.len() as int, res->0) =~= children.push(res->0));
    }
}

/// An update that is stopped before any of its units has come back leaves
/// no trace: whatever comes back afterwards writes nothing into the
/// dictionary of tidings, counts for nothing, and touches no source.
pub proof fn lemma_stopped_update_leaves_no_trace(
    before: Model,
    running: Model,
    stopped: Model,
    after: Model,
    work: Option<update::Msg>,
    session: u64,
    indices: Seq<Reference>,
    url: Seq<char>,
    tidings: Seq<Seq<char>>,
)
    requires
        Model::started(before, running, work),
        Model::stopped(running, stopped),
        Model::inserted(stopped, after, session, indices, url, tidings) || Model::marked(
            stopped,
            after,
            session,
            indices,
        ),
    ensures
        after.tidings_dictionary@ == before.tidings_dictionary@,
        after.sources_arena == before.sources_arena,
        after.update_handled == stopped.update_handled,
        work is Some ==> after.update_handled == 0,
        !after.updating,
{
}

/// A unit that comes back within the running session does to the URLs that
/// are out and to the number of requests handled what `after_unit` says, and
/// the update runs on exactly while a URL is out.
pub proof fn lemma_inserted_is_one_unit(
    pre: Model,
    post: Model,
    session: u64,
    indices: Seq<Reference>,
    url: Seq<char>,
    tidings: Seq<Seq<char>>,
)
    requires
        pre.update_wf(),
        pre.live(session),
        Model::inserted(pre, post, session, indices, url, tidings),
    ensures
        (post.pending(), post.update_handled as nat) == update::after_unit(
            (pre.pending(), pre.update_handled as nat),
            url,
        ),
        post.updating == (post.pending().len() > 0),
{
}

/// Updating a subtree in which the walk comes to no feed starts no session:
/// there is no work order, and the state of the update stays as it was.
pub proof fn lemma_nothing_to_update(pre: Model, post: Model, index: Reference, res: Option<update::Msg>)
    requires
        forall|x: Reference| pre.sources_arena.reaches(index, x) ==> !(pre.sources()[x] is Feed),
        Model::started_under(pre, post, index, res),
    ensures
        res is None,
        Model::same_update(pre, post),
{
    pre.sources_arena.lemma_no_feeds_no_urls(index);
}

/// Whatever the message, every reference that resolved before it resolves
/// after it, to a source of the same kind, title, URL and parent.
pub proof fn lemma_messages_keep_references(pre: Model, msg: Msg, post: Model, res: Option<update::Msg>)
    requires
        Model::updated(pre, msg, post, res),
    ensures
        pre.sources_arena.extended_by(&post.sources_arena),
{
}

} // verus!
