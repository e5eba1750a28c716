//! The panels of the administration screen.
use vstd::prelude::*;

verus! {

/// A panel of the menu.
#[derive(Debug, Clone, Copy, PartialEq, Eq)]
pub enum MenuPanel {
    Projects,
    Environments,
    ConfigItems,
    SharedGroup,
    ApiKeys,
    Server,
}

/// Where the keyboard focus lies: on the menu or on the content.
#[derive(Debug, Clone, Copy, PartialEq, Eq)]
pub enum Focus {
    Menu,
    Content,
}

/// What the content area does with input.
#[derive(Debug, Clone, Copy, PartialEq, Eq)]
pub enum InputMode {
    /// Browsing the list.
    Normal,
    /// Filling in the form of a new or edited entry.
    Creating,
    /// Asking whether to delete.
    Deleting,
}

impl MenuPanel {
    /// The number of panels.
    pub const COUNT: usize = 6;

    /// The label of the panel, as a text.
    pub open spec fn label_text(self) -> Seq<char> {
        match self {
            MenuPanel::Projects => "Projects"@,
            MenuPanel::Environments => "Environments"@,
            MenuPanel::ConfigItems => "Config Items"@,
            MenuPanel::SharedGroup => "Shared Group"@,
            MenuPanel::ApiKeys => "API Keys"@,
            MenuPanel::Server => "Server"@,
        }
    }

    /// The place of the panel in the menu, from the top.
    pub open spec fn index(self) -> int {
        match self {
            MenuPanel::Projects => 0,
            MenuPanel::Environments => 1,
            MenuPanel::ConfigItems => 2,
            MenuPanel::SharedGroup => 3,
            MenuPanel::ApiKeys => 4,
            MenuPanel::Server => 5,
        }
    }

    /// The panel at a place in the menu, from the top; the last panel for
    /// every place beyond it.
    pub open spec fn placed(place: int) -> MenuPanel {
        if place == 0 {
            MenuPanel::Projects
        } else if place == 1 {
            MenuPanel::Environments
        } else if place == 2 {
            MenuPanel::ConfigItems
        } else if place == 3 {
            MenuPanel::SharedGroup
        } else if place == 4 {
            MenuPanel::ApiKeys
        } else {
            MenuPanel::Server
        }
    }

    /// The label of the panel.
    pub fn label(self) -> (r: &'static str)
        ensures
            r@ == self.label_text(),
    {
        match self {
            MenuPanel::Projects => "Projects",
            MenuPanel::Environments => "Environments",
            MenuPanel::ConfigItems => "Config Items",
            MenuPanel::SharedGroup => "Shared Group",
            MenuPanel::ApiKeys => "API Keys",
            MenuPanel::Server => "Server",
        }
    }

    /// The panel at a place in the menu, from the top; the last panel for
    /// every place beyond it.
    pub fn at(index: usize) -> (r: MenuPanel)
        ensures
            r == MenuPanel::placed(index as int),
            index < 6 ==> r.index() == index,
            index >= 6 ==> r == MenuPanel::Server,
    {
        match index {
            0 => MenuPanel::Projects,
            1 => MenuPanel::Environments,
            2 => MenuPanel::ConfigItems,
            3 => MenuPanel::SharedGroup,
            4 => MenuPanel::ApiKeys,
            _ => MenuPanel::Server,
        }
    }
}

} // verus!
