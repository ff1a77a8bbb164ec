//! The dialogs: each is in view or not, and is opened and closed by messages

use vstd::prelude::*;

verus! {

/// Model of the About dialog
#[derive(Debug, Clone, Copy, PartialEq, Eq, Structural)]
pub struct AboutDialogModel {
    /// Is the dialog in view?
    pub visible: bool,
}

/// Messages of the About dialog
#[derive(Debug, Clone, Copy, PartialEq, Eq, Structural)]
pub enum AboutDialogMsg {
    /// Open the dialog
    Open,
    /// Close the dialog
    Close,
}

impl AboutDialogModel {
    /// Initialize the model: the dialog is out of view
    pub fn init_model() -> (res: Self)
        ensures
            !res.visible,
    {
        AboutDialogModel { visible: false }
    }

    /// Handle a message
    pub fn update(&mut self, msg: AboutDialogMsg)
        ensures
            final(self).visible == (msg == AboutDialogMsg::Open),
    {
        match msg {
            AboutDialogMsg::Open => {
                self.visible = true;
            },
            AboutDialogMsg::Close => {
                self.visible = false;
            },
        }
    }
}

/// Model of the overlay with the keyboard shortcuts
#[derive(Debug, Clone, Copy, PartialEq, Eq, Structural)]
pub struct HelpOverlayModel {
    /// Is the overlay in view?
    pub visible: bool,
}

/// Messages of the overlay with the keyboard shortcuts
#[derive(Debug, Clone, Copy, PartialEq, Eq, Structural)]
pub enum HelpOverlayMsg {
    /// Open the overlay
    Open,
    /// Close the overlay
    Close,
}

impl HelpOverlayModel {
    /// Initialize the model: the overlay is out of view
    pub fn init_model() -> (res: Self)
        ensures
            !res.visible,
    {
        HelpOverlayModel { visible: false }
    }

    /// Handle a message
    pub fn update(&mut self, msg: HelpOverlayMsg)
        ensures
            final(self).visible == (msg == HelpOverlayMsg::Open),
    {
        match msg {
            HelpOverlayMsg::Open => {
                self.visible = true;
            },
            HelpOverlayMsg::Close => {
                self.visible = false;
            },
        }
    }
}

} // verus!
