//! Walking the tree from the list of feeds: the messages of the list, the
//! button that leads back, and the items that the list shows

use vstd::prelude::*;
use crate::content::Model;
use crate::reference::Reference;
use crate::source::{entry_title, ListSource};

verus! {

/// Messages of the list of feeds
#[derive(Debug, Clone, Copy, PartialEq, Eq, Structural)]
pub enum FeedsMsg {
    /// Go one level up in the tree of feeds
    Back,
    /// Enter the directory at the position, going one level down in the tree
    /// of feeds
    EnterDirectory(usize),
}

/// Model of the button that leads back
#[derive(Debug, Clone, Copy, PartialEq, Eq, Structural)]
pub struct FeedsBackButtonModel {
    /// Is the button in view?
    pub visible: bool,
}

/// Messages of the button that leads back
#[derive(Debug, Clone, Copy, PartialEq, Eq, Structural)]
pub enum FeedsBackButtonMsg {
    /// Show the button
    Show,
    /// Hide the button
    Hide,
    /// The button was pressed
    Back,
}

impl FeedsBackButtonModel {
    /// Initialize the model: the button is out of view
    pub fn init_model() -> (res: Self)
        ensures
            !res.visible,
    {
        FeedsBackButtonModel { visible: false }
    }

    /// Handle a message: the button comes into view or goes out of it; a
    /// press leaves it as it is and hands the list of feeds the message to
    /// go back
    pub fn update(&mut self, msg: FeedsBackButtonMsg) -> (res: Option<FeedsMsg>)
        ensures
            final(self).visible == match msg {
                FeedsBackButtonMsg::Show => true,
                FeedsBackButtonMsg::Hide => false,
                FeedsBackButtonMsg::Back => old(self).visible,
            },
            res == if msg == FeedsBackButtonMsg::Back {
                Some(FeedsMsg::Back)
            } else {
                None
            },
    {
        match msg {
            FeedsBackButtonMsg::Show => {
                self.visible = true;
                None
            },
            FeedsBackButtonMsg::Hide => {
                self.visible = false;
                None
            },
            FeedsBackButtonMsg::Back => Some(FeedsMsg::Back),
        }
    }
}

/// Item of the list of feeds, as it is handed to the view
#[derive(Debug, Clone, PartialEq, Eq)]
pub struct GItem {
    /// Index
    pub index: u64,
    /// Generation
    pub generation: u64,
    /// Title
    pub title: String,
    /// Is the feed a directory?
    pub is_dir: bool,
}

impl GItem {
    /// Create a new item
    pub fn new(index: u64, generation: u64, title: &str, is_dir: bool) -> (res: Self)
        ensures
            res.index == index,
            res.generation == generation,
            res.title@ == title@,
            res.is_dir == is_dir,
    {
        GItem { index, generation, title: title.to_owned(), is_dir }
    }

    /// The item of an entry of the list
    pub fn from_list_source(source: &ListSource) -> (res: Self)
        ensures
            res.index == source@.1.slot,
            res.generation == source@.1.generation,
            res.title@ == entry_title(source@.0),
            res.is_dir == source@.0.is_dir(),
    {
        let reference = source.index();
        GItem {
            index: reference.slot as u64,
            generation: reference.generation,
            title: source.title().to_owned(),
            is_dir: source.is_dir(),
        }
    }

    /// Get the reference of the source, if the index fits a slot
    pub fn index(&self) -> (res: Option<Reference>)
        ensures
            res == if self.index <= usize::MAX {
                Some(Reference { slot: self.index as usize, generation: self.generation })
            } else {
                None
            },
    {
        if self.index <= usize::MAX as u64 {
            Some(Reference::from_raw_parts(self.index as usize, self.generation))
        } else {
            None
        }
    }

    /// Return `true` if the feed is a directory
    pub fn is_dir(&self) -> (res: bool)
        ensures
            res == self.is_dir,
    {
        self.is_dir
    }

    /// Return the title of the item
    pub fn title(&self) -> (res: String)
        ensures
            res@ == self.title@,
    {
        self.title.clone()
    }

    /// Set the raw parts of the reference
    pub fn set_index(&mut self, index: Reference)
        ensures
            final(self).index == index.slot,
            final(self).generation == index.generation,
            final(self).title == old(self).title,
            final(self).is_dir == old(self).is_dir,
    {
        self.index = index.slot as u64;
        self.generation = index.generation;
    }
}

impl Model {
    /// Return `true` if the current root is the root of all sources
    pub fn is_root(&self) -> (res: bool)
        ensures
            res == (self.current_root_index == self.main_root_index),
    {
        self.current_root_index == self.main_root_index
    }

    /// What entering a directory from the list does: the directory at the
    /// position is shown; a position without an entry, or with a feed,
    /// changes nothing
    pub open spec fn entered(pre: Model, post: Model, position: usize) -> bool {
        if position < pre.sources_list@.len() && pre.sources_list@[position as int]@.0.is_dir() {
            Self::shown(pre, post, pre.sources_list@[position as int]@.1)
        } else {
            &&& Self::same_sources(pre, post)
            &&& Self::same_navigation(pre, post)
            &&& Self::same_dictionary(pre, post)
            &&& Self::same_update(pre, post)
        }
    }

    /// Enter the directory at the position of the list, going one level down
    /// in the tree
    pub fn enter_dir(&mut self, position: usize)
        requires
            old(self).wf(),
        ensures
            final(self).wf(),
            Self::entered(*old(self), *final(self), position),
    {
        if position < self.sources_list.len() {
            if self.sources_list[position].is_dir() {
                let index = self.sources_list[position].index();
                self.show_source(index);
            }
        }
    }

    /// Handle a message of the list of feeds: go up or down in the tree,
    /// and say whether the button that leads back is to be in view, which it
    /// is everywhere but at the root of all sources
    pub fn navigate(&mut self, msg: FeedsMsg) -> (res: FeedsBackButtonMsg)
        requires
            old(self).wf(),
        ensures
            final(self).wf(),
            match msg {
                FeedsMsg::Back => Self::ascended(*old(self), *final(self)),
                FeedsMsg::EnterDirectory(position) => Self::entered(*old(self), *final(self), position),
            },
            res == if final(self).current_root_index == final(self).main_root_index {
                FeedsBackButtonMsg::Hide
            } else {
                FeedsBackButtonMsg::Show
            },
    {
        match msg {
            FeedsMsg::Back => {
                self.ascend();
            },
            FeedsMsg::EnterDirectory(position) => {
                self.enter_dir(position);
            },
        }
        if self.is_root() {
            FeedsBackButtonMsg::Hide
        } else {
            FeedsBackButtonMsg::Show
        }
    }
}

} // verus!
