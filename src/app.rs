//! The start menu state machine.
use vstd::prelude::*;

use crate::menu::{menu_order, MenuItem, MENU_LEN};

verus! {

/// The abstract state of the start menu.
pub struct MenuModel {
    /// Position of the highlighted entry in display order.
    pub index: nat,
    /// Whether the menu loop goes on.
    pub running: bool,
    /// The entry chosen by the user, once one is chosen.
    pub action: Option<MenuItem>,
}

/// State of the start menu: the highlighted entry, whether the menu is still
/// running, and the entry that was finally chosen.
pub struct App {
    selected_index: usize,
    running: bool,
    selected_action: Option<MenuItem>,
}

impl View for App {
    type V = MenuModel;

    closed spec fn view(&self) -> MenuModel {
        MenuModel {
            index: self.selected_index as nat,
            running: self.running,
            action: self.selected_action,
        }
    }
}

impl App {
    /// The highlighted entry always names a menu entry.
    #[verifier::type_invariant]
    closed spec fn inv(&self) -> bool {
        self.selected_index < MENU_LEN
    }

    /// A fresh menu: first entry highlighted, running, nothing chosen.
    pub fn new() -> (r: App)
        ensures
            r@.index == 0,
            r@.running,
            r@.action is None,
    {
        App { selected_index: 0, running: true, selected_action: None }
    }

    /// Whether the menu loop goes on.
    pub fn is_running(&self) -> (r: bool)
        ensures
            r == self@.running,
    {
        self.running
    }

    /// Position of the highlighted entry.
    pub fn selected_index(&self) -> (r: usize)
        ensures
            r == self@.index,
            r < MENU_LEN,
    {
        proof {
            use_type_invariant(self);
        }
        self.selected_index
    }

    /// The entry chosen, if the menu ended by a selection.
    pub fn selected_action(&self) -> (r: Option<MenuItem>)
        ensures
            r == self@.action,
    {
        self.selected_action
    }

    /// Highlight the previous entry, wrapping from the first to the last.
    pub fn previous(&mut self)
        ensures
            final(self)@.index == (if old(self)@.index > 0 {
                old(self)@.index - 1
            } else {
                MENU_LEN - 1
            }),
            final(self)@.index < MENU_LEN,
            final(self)@.running == old(self)@.running,
            final(self)@.action == old(self)@.action,
    {
        proof {
            use_type_invariant(&*self);
        }
        let menu_len = MenuItem::all().len();
        if self.selected_index > 0 {
            self.selected_index = self.selected_index - 1;
        } else {
            self.selected_index = menu_len - 1;
        }
    }

    /// Highlight the next entry, wrapping from the last to the first.
    pub fn next(&mut self)
        ensures
            final(self)@.index == (old(self)@.index + 1) % (MENU_LEN as nat),
            final(self)@.index < MENU_LEN,
            final(self)@.running == old(self)@.running,
            final(self)@.action == old(self)@.action,
    {
        proof {
            use_type_invariant(&*self);
        }
        let menu_len = MenuItem::all().len();
        self.selected_index = (self.selected_index + 1) % menu_len;
    }

    /// Choose the highlighted entry and end the menu loop. Every entry ends
    /// the loop; the caller decides what the chosen entry leads to.
    pub fn select(&mut self)
        ensures
            final(self)@.action == Some(menu_order()[old(self)@.index as int]),
            !final(self)@.running,
            final(self)@.index == old(self)@.index,
    {
        proof {
            use_type_invariant(&*self);
        }
        let items = MenuItem::all();
        if let Some(item) = items.get(self.selected_index) {
            self.selected_action = Some(*item);
            match item {
                MenuItem::Exit => self.quit(),
                _ => self.quit(),
            }
        }
    }

    /// End the menu loop without choosing an entry.
    pub fn quit(&mut self)
        ensures
            !final(self)@.running,
            final(self)@.index == old(self)@.index,
            final(self)@.action == old(self)@.action,
    {
        proof {
            use_type_invariant(&*self);
        }
        self.running = false;
    }
}

impl Default for App {
    fn default() -> (r: App)
        ensures
            r@.index == 0,
            r@.running,
            r@.action is None,
    {
        App::new()
    }
}

} // verus!
