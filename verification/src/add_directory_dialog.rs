//! Add Directory Dialog

use vstd::prelude::*;
use crate::content;

verus! {

/// Model
#[derive(Debug)]
pub struct Model {
    /// Is the window visible?
    pub visible: bool,
    /// Directory title, as typed so far
    pub title: String,
    /// Is the directory allowed to be added?
    pub allowed: bool,
}

/// Messages
#[derive(Debug, Clone, Copy, PartialEq, Eq, Structural)]
pub enum Msg {
    /// Show the dialog
    Show,
    /// Hide the dialog
    Hide,
    /// Check if the directory is allowed to be added
    Check,
    /// Add the directory
    Add,
}

impl Model {
    /// Initialize the model: the dialog is out of view, with nothing typed
    /// and nothing allowed
    pub fn init() -> (res: Self)
        ensures
            !res.visible,
            res.title@.len() == 0,
            !res.allowed,
    {
        Model { visible: false, title: String::new(), allowed: false }
    }

    /// Handle a message. Hiding the dialog empties it; the check allows the
    /// step where the title is not empty; adding hands out the message that
    /// adds the directory, and hides the dialog.
    pub fn update(&mut self, msg: Msg) -> (res: Option<content::Msg>)
        ensures
            final(self).visible == match msg {
                Msg::Show => true,
                Msg::Hide => false,
                Msg::Add => false,
                Msg::Check => old(self).visible,
            },
            final(self).allowed == match msg {
                Msg::Check => old(self).title@.len() > 0,
                _ => old(self).allowed,
            },
            final(self).title@ == match msg {
                Msg::Hide => Seq::empty(),
                Msg::Add => Seq::empty(),
                _ => old(self).title@,
            },
            res is Some == (msg == Msg::Add),
            res is Some ==> res->0 is AddDirectory && res->0->AddDirectory_0@ == old(self).title@,
    {
        match msg {
            Msg::Show => {
                self.visible = true;
                None
            },
            Msg::Hide => {
                self.visible = false;
                self.title = String::new();
                None
            },
            Msg::Check => {
                self.allowed = !self.title.as_str().is_empty();
                None
            },
            Msg::Add => {
                let title = self.title.clone();
                self.visible = false;
                self.title = String::new();
                Some(content::Msg::AddDirectory(title))
            },
        }
    }
}

} // verus!
