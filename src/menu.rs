//! The entries of the start menu.
use vstd::prelude::*;

verus! {

/// An entry of the start menu.
#[derive(Debug, Clone, Copy, PartialEq, Eq, Structural)]
pub enum MenuItem {
    StartGame,
    Options,
    HighScores,
    Exit,
}

/// The number of entries in the start menu.
pub const MENU_LEN: usize = 4;

/// The menu entries in display order.
pub open spec fn menu_order() -> Seq<MenuItem> {
    seq![MenuItem::StartGame, MenuItem::Options, MenuItem::HighScores, MenuItem::Exit]
}

/// The text shown for a menu entry.
pub open spec fn label_text(item: MenuItem) -> Seq<char> {
    match item {
        MenuItem::StartGame => "START GAME"@,
        MenuItem::Options => "OPTIONS"@,
        MenuItem::HighScores => "HIGH SCORES"@,
        MenuItem::Exit => "EXIT"@,
    }
}

impl MenuItem {
    /// All menu entries in display order.
    pub fn all() -> (r: &'static [MenuItem])
        ensures
            r@ == menu_order(),
    {
        let items: &'static [MenuItem] = &[
            MenuItem::StartGame,
            MenuItem::Options,
            MenuItem::HighScores,
            MenuItem::Exit,
        ];
        assert(items@ == menu_order());
        items
    }

    /// The text shown for this entry.
    pub fn label(&self) -> (r: &'static str)
        ensures
            r@ == label_text(*self),
    {
        match self {
            MenuItem::StartGame => "START GAME",
            MenuItem::Options => "OPTIONS",
            MenuItem::HighScores => "HIGH SCORES",
            MenuItem::Exit => "EXIT",
        }
    }
}

} // verus!
