//! Sources: the nodes of the arena and the entries of the list projection

use vstd::prelude::*;
use crate::reference::Reference;

verus! {

/// Mathematical value of a source
pub enum SourceView {
    /// Feed
    Feed { title: Seq<char>, url: Seq<char>, updating: bool, parent_index: Reference },
    /// Directory
    Directory { title: Seq<char>, children: Seq<Reference>, parent_index: Reference },
    /// Root directory
    RootDirectory { children: Seq<Reference> },
}

impl SourceView {
    /// Is the source a directory (the root included)?
    pub open spec fn is_dir(self) -> bool {
        !(self is Feed)
    }

    /// Children of a directory, nothing for a feed
    pub open spec fn children(self) -> Seq<Reference> {
        match self {
            SourceView::Feed { .. } => Seq::empty(),
            SourceView::Directory { children, .. } => children,
            SourceView::RootDirectory { children } => children,
        }
    }

    /// Parent of the source; only the root has none
    pub open spec fn parent_index(self) -> Option<Reference> {
        match self {
            SourceView::Feed { parent_index, .. } => Some(parent_index),
            SourceView::Directory { parent_index, .. } => Some(parent_index),
            SourceView::RootDirectory { .. } => None,
        }
    }

    /// Title shown while the source is the open directory: the directory's own
    /// title, and nothing for a feed or the root
    pub open spec fn title(self) -> Seq<char> {
        match self {
            SourceView::Directory { title, .. } => title,
            _ => Seq::empty(),
        }
    }

    /// The source with one more child at the end; a feed stays as it is
    pub open spec fn with_child(self, index: Reference) -> SourceView {
        match self {
            SourceView::Feed { .. } => self,
            SourceView::Directory { title, children, parent_index } => SourceView::Directory {
                title,
                children: children.push(index),
                parent_index,
            },
            SourceView::RootDirectory { children } => SourceView::RootDirectory {
                children: children.push(index),
            },
        }
    }

    /// The source with one more child at the position, or at the end where
    /// the position lies behind it; a feed stays as it is
    pub open spec fn with_child_at(self, position: int, index: Reference) -> SourceView {
        let at = if 0 <= position <= self.children().len() {
            position
        } else {
            self.children().len() as int
        };
        match self {
            SourceView::Feed { .. } => self,
            SourceView::Directory { title, children, parent_index } => SourceView::Directory {
                title,
                children: children.insert(at, index),
                parent_index,
            },
            SourceView::RootDirectory { children } => SourceView::RootDirectory {
                children: children.insert(at, index),
            },
        }
    }

    /// The source with the updating status set; a directory stays as it is
    pub open spec fn with_updating(self, status: bool) -> SourceView {
        match self {
            SourceView::Feed { title, url, parent_index, .. } => SourceView::Feed {
                title,
                url,
                updating: status,
                parent_index,
            },
            _ => self,
        }
    }
}

/// Arena source
#[derive(Debug, Clone, PartialEq, Eq)]
pub enum ArenaSource {
    /// Feed
    Feed {
        /// Title
        title: String,
        /// URL
        url: String,
        /// Is the feed in the process of being updated?
        updating: bool,
        /// Arena index of the parent directory
        parent_index: Reference,
    },
    /// Directory
    Directory {
        /// Title
        title: String,
        /// Children arena indices
        children: Vec<Reference>,
        /// Arena index of the parent directory
        parent_index: Reference,
    },
    /// Root directory
    RootDirectory {
        /// Children arena indices
        children: Vec<Reference>,
    },
}

impl View for ArenaSource {
    type V = SourceView;

    open spec fn view(&self) -> SourceView {
        match *self {
            ArenaSource::Feed { title, url, updating, parent_index } => SourceView::Feed {
                title: title@,
                url: url@,
                updating,
                parent_index,
            },
            ArenaSource::Directory { title, children, parent_index } => SourceView::Directory {
                title: title@,
                children: children@,
                parent_index,
            },
            ArenaSource::RootDirectory { children } => SourceView::RootDirectory {
                children: children@,
            },
        }
    }
}

impl ArenaSource {
    /// Push the index to the children
    pub fn push_to_children(&mut self, index: Reference)
        ensures
            final(self)@ == old(self)@.with_child(index),
    {
        match self {
            ArenaSource::Directory { children, .. } => {
                children.push(index);
            },
            ArenaSource::RootDirectory { children } => {
                children.push(index);
            },
            ArenaSource::Feed { .. } => {},
        }
    }

    /// Get the children of directory
    pub fn children(&self) -> (res: Option<&Vec<Reference>>)
        ensures
            res is Some == self@.is_dir(),
            res is Some ==> res->0@ == self@.children(),
    {
        match self {
            ArenaSource::Directory { children, .. } => Some(children),
            ArenaSource::RootDirectory { children } => Some(children),
            ArenaSource::Feed { .. } => None,
        }
    }

    /// Get the title of the source
    pub fn title(&self) -> (res: String)
        ensures
            res@ == self@.title(),
    {
        match self {
            ArenaSource::Directory { title, .. } => title.clone(),
            _ => String::new(),
        }
    }

    /// Get the index of the parent directory
    pub fn parent_index(&self) -> (res: Option<Reference>)
        ensures
            res == self@.parent_index(),
    {
        match self {
            ArenaSource::Feed { parent_index, .. } => Some(*parent_index),
            ArenaSource::Directory { parent_index, .. } => Some(*parent_index),
            ArenaSource::RootDirectory { .. } => None,
        }
    }

    /// Is the source a directory?
    pub fn is_dir(&self) -> (res: bool)
        ensures
            res == self@.is_dir(),
    {
        match self {
            ArenaSource::Feed { .. } => false,
            _ => true,
        }
    }

    /// Set the updating status of the source
    pub fn set_updating(&mut self, status: bool)
        ensures
            final(self)@ == old(self)@.with_updating(status),
    {
        match self {
            ArenaSource::Feed { updating, .. } => {
                *updating = status;
            },
            _ => {},
        }
    }

    /// Create a new feed source
    pub fn new_feed(title: String, url: String, parent_index: Reference) -> (res: Self)
        ensures
            res@ == (SourceView::Feed { title: title@, url: url@, updating: false, parent_index }),
    {
        ArenaSource::Feed { title, url, updating: false, parent_index }
    }

    /// Create a new directory source
    pub fn new_directory(title: String, parent_index: Reference) -> (res: Self)
        ensures
            res@ == (SourceView::Directory { title: title@, children: Seq::empty(), parent_index }),
    {
        ArenaSource::Directory { title, children: Vec::new(), parent_index }
    }

    /// Create a new root source
    pub fn new_root() -> (res: Self)
        ensures
            res@ == (SourceView::RootDirectory { children: Seq::empty() }),
    {
        ArenaSource::RootDirectory { children: Vec::new() }
    }

    /// Insert the index into the children at the position, or at their end
    /// where the position lies behind it
    pub fn insert_child(&mut self, position: usize, index: Reference)
        ensures
            final(self)@ == old(self)@.with_child_at(position as int, index),
    {
        match self {
            ArenaSource::Directory { children, .. } => {
                let at = if position <= children.len() {
                    position
                } else {
                    children.len()
                };
                children.insert(at, index);
            },
            ArenaSource::RootDirectory { children } => {
                let at = if position <= children.len() {
                    position
                } else {
                    children.len()
                };
                children.insert(at, index);
            },
            ArenaSource::Feed { .. } => {},
        }
    }

    /// A copy of the source
    pub fn duplicate(&self) -> (res: Self)
        ensures
            res@ == self@,
    {
        match self {
            ArenaSource::Feed { title, url, updating, parent_index } => ArenaSource::Feed {
                title: title.clone(),
                url: url.clone(),
                updating: *updating,
                parent_index: *parent_index,
            },
            ArenaSource::Directory { title, children, parent_index } => ArenaSource::Directory {
                title: title.clone(),
                children: duplicate_references(children),
                parent_index: *parent_index,
            },
            ArenaSource::RootDirectory { children } => ArenaSource::RootDirectory {
                children: duplicate_references(children),
            },
        }
    }

    /// Convert the arena source to the list source with the arena index;
    /// the root has no place in a list
    pub fn into_list_source(self, index: Reference) -> (res: Option<ListSource>)
        ensures
            res is None == self@ is RootDirectory,
            res is Some ==> res->0@ == (self@, index),
    {
        match self {
            ArenaSource::Feed { title, url, updating, parent_index } => Some(
                ListSource::Feed { title, url, updating, parent_index, index },
            ),
            ArenaSource::Directory { title, children, parent_index } => Some(
                ListSource::Directory { title, children, parent_index, index },
            ),
            ArenaSource::RootDirectory { .. } => None,
        }
    }
}

/// A copy of the references, in their order
pub fn duplicate_references(references: &Vec<Reference>) -> (res: Vec<Reference>)
    ensures
        res@ == references@,
{
    let mut res: Vec<Reference> = Vec::new();
    let mut i: usize = 0;
    while i < references.len()
        invariant
            i <= references.len(),
            res@ == references@.take(i as int),
        decreases references.len() - i,
    {
        res.push(references[i]);
        proof {
            assert(res@ =~= references@.take(i + 1));
        }
        i += 1;
    }
    proof {
        assert(references@.take(references@.len() as int) =~= references@);
    }
    res
}

/// List source: an entry of the list projection, a source together with the
/// reference it came from
#[derive(Debug, Clone, PartialEq, Eq)]
pub enum ListSource {
    /// Feed
    Feed {
        /// Title
        title: String,
        /// URL
        url: String,
        /// Is the feed in the process of being updated?
        updating: bool,
        /// Arena index of the parent directory
        parent_index: Reference,
        /// Arena index of the source
        index: Reference,
    },
    /// Directory
    Directory {
        /// Title
        title: String,
        /// Children arena indices
        children: Vec<Reference>,
        /// Arena index of the parent directory
        parent_index: Reference,
        /// Arena index of the source
        index: Reference,
    },
}

impl View for ListSource {
    type V = (SourceView, Reference);

    /// The source and the reference it came from
    open spec fn view(&self) -> (SourceView, Reference) {
        match *self {
            ListSource::Feed { title, url, updating, parent_index, index } => (
                SourceView::Feed { title: title@, url: url@, updating, parent_index },
                index,
            ),
            ListSource::Directory { title, children, parent_index, index } => (
                SourceView::Directory { title: title@, children: children@, parent_index },
                index,
            ),
        }
    }
}

/// Title of an entry of the list: the title of the feed or of the directory
pub open spec fn entry_title(source: SourceView) -> Seq<char> {
    match source {
        SourceView::Feed { title, .. } => title,
        SourceView::Directory { title, .. } => title,
        SourceView::RootDirectory { .. } => Seq::empty(),
    }
}

impl ListSource {
    /// Get the title of the source
    pub fn title(&self) -> (res: &str)
        ensures
            res@ == entry_title(self@.0),
    {
        match self {
            ListSource::Feed { title, .. } => title.as_str(),
            ListSource::Directory { title, .. } => title.as_str(),
        }
    }

    /// Get the index of the source
    pub fn index(&self) -> (res: Reference)
        ensures
            res == self@.1,
    {
        match self {
            ListSource::Feed { index, .. } => *index,
            ListSource::Directory { index, .. } => *index,
        }
    }

    /// Is the source a directory?
    pub fn is_dir(&self) -> (res: bool)
        ensures
            res == self@.0.is_dir(),
    {
        match self {
            ListSource::Feed { .. } => false,
            ListSource::Directory { .. } => true,
        }
    }

    /// Is the feed in the process of being updated? Never true of a directory.
    pub fn is_updating(&self) -> (res: bool)
        ensures
            res == (self@.0 is Feed && self@.0->Feed_updating),
    {
        match self {
            ListSource::Feed { updating, .. } => *updating,
            ListSource::Directory { .. } => false,
        }
    }
}

} // verus!
