//! Add Feed Dialog: the URL is asked for on the first page, the title on the
//! next

use vstd::prelude::*;
use crate::content;

verus! {

/// Model
#[derive(Debug)]
pub struct Model {
    /// Is the window visible?
    pub visible: bool,
    /// Feed title, as typed so far
    pub title: String,
    /// Feed URL, as typed so far
    pub url: String,
    /// Is the feed allowed to be added?
    pub allowed: bool,
    /// Should we go to the next page?
    pub next_page: bool,
}

/// Messages
#[derive(Debug, Clone, Copy, PartialEq, Eq, Structural)]
pub enum Msg {
    /// Show the dialog
    Show,
    /// Hide the dialog
    Hide,
    /// Check if the feed is allowed to be added
    Check,
    /// Go to the next page
    Next,
    /// Add the feed
    Add,
}

impl Model {
    /// Initialize the model: the dialog is out of view, on its first page,
    /// with nothing typed and nothing allowed
    pub fn init() -> (res: Self)
        ensures
            !res.visible,
            res.title@.len() == 0,
            res.url@.len() == 0,
            !res.allowed,
            !res.next_page,
    {
        Model { visible: false, title: String::new(), url: String::new(), allowed: false, next_page: false }
    }

    /// Handle a message. Hiding the dialog empties it and leads back to the
    /// first page; the check allows the step where the text of the page is
    /// not empty; adding hands out the message that adds the feed, and hides
    /// the dialog.
    pub fn update(&mut self, msg: Msg) -> (res: Option<content::Msg>)
        ensures
            final(self).visible == match msg {
                Msg::Show => true,
                Msg::Hide => false,
                Msg::Add => false,
                _ => old(self).visible,
            },
            final(self).next_page == match msg {
                Msg::Next => true,
                Msg::Hide => false,
                Msg::Add => false,
                _ => old(self).next_page,
            },
            final(self).allowed == match msg {
                Msg::Check => if old(self).next_page {
                    old(self).title@.len() > 0
                } else {
                    old(self).url@.len() > 0
                },
                _ => old(self).allowed,
            },
            final(self).title@ == match msg {
                Msg::Hide => Seq::empty(),
                Msg::Add => Seq::empty(),
                _ => old(self).title@,
            },
            final(self).url@ == match msg {
                Msg::Hide => Seq::empty(),
                Msg::Add => Seq::empty(),
                _ => old(self).url@,
            },
            res is Some == (msg == Msg::Add),
            res is Some ==> res->0 is AddFeed && res->0->AddFeed_0@ == old(self).title@
                && res->0->AddFeed_1@ == old(self).url@,
    {
        match msg {
            Msg::Show => {
                self.visible = true;
                None
            },
            Msg::Hide => {
                self.close();
                None
            },
            Msg::Check => {
                self.allowed = if self.next_page {
                    !self.title.as_str().is_empty()
                } else {
                    !self.url.as_str().is_empty()
                };
                None
            },
            Msg::Next => {
                self.next_page = true;
                None
            },
            Msg::Add => {
                let title = self.title.clone();
                let url = self.url.clone();
                self.close();
                Some(content::Msg::AddFeed(title, url))
            },
        }
    }

    /// Hide the dialog, get back to the first page and empty the texts
    fn close(&mut self)
        ensures
            !final(self).visible,
            !final(self).next_page,
            final(self).title@ == Seq::<char>::empty(),
            final(self).url@ == Seq::<char>::empty(),
            final(self).allowed == old(self).allowed,
    {
        self.visible = false;
        self.next_page = false;
        self.title = String::new();
        self.url = String::new();
    }
}

} // verus!
