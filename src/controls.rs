//! Keys, what they do in the menu and in the game, and where the program
//! goes once the menu closes.
use vstd::prelude::*;

use crate::app::App;
use crate::game::{clamped_move, GameModel, GameState, SHIP_STEP};
use crate::menu::{menu_order, MenuItem, MENU_LEN};
use crate::text::push_str;

verus! {

/// A key press, as far as the game tells keys apart.
#[derive(Clone, Copy, Debug, PartialEq, Eq, Structural)]
pub enum Key {
    Char(char),
    Up,
    Down,
    Left,
    Right,
    Enter,
    Other,
}

/// What follows once the menu loop ends.
#[derive(Clone, Copy, Debug, PartialEq, Eq, Structural)]
pub enum Flow {
    /// Run a game, then show the menu again.
    Play,
    /// Leave with this outcome: the chosen entry, or none if the user quit.
    Finish(Option<MenuItem>),
}

/// Where the program goes after the menu closed with `choice`: starting a
/// game plays one and comes back; any other entry, or quitting, ends.
pub fn after_menu(choice: Option<MenuItem>) -> (r: Flow)
    ensures
        r == (if choice == Some(MenuItem::StartGame) {
            Flow::Play
        } else {
            Flow::Finish(choice)
        }),
{
    match choice {
        Some(MenuItem::StartGame) => Flow::Play,
        other => Flow::Finish(other),
    }
}

impl App {
    /// React to a key in the menu: `q` quits, up or `k` and down or `j`
    /// move the highlight, Enter chooses; other keys do nothing.
    pub fn handle_key(&mut self, key: Key)
        ensures
            key == Key::Char('q') ==> final(self)@ == (crate::app::MenuModel { running: false, ..old(self)@ }),
            (key == Key::Up || key == Key::Char('k')) ==> final(self)@ == (crate::app::MenuModel {
                index: if old(self)@.index > 0 { (old(self)@.index - 1) as nat } else { (MENU_LEN - 1) as nat },
                ..old(self)@
            }),
            (key == Key::Down || key == Key::Char('j')) ==> final(self)@ == (crate::app::MenuModel {
                index: (old(self)@.index + 1) % (MENU_LEN as nat),
                ..old(self)@
            }),
            key == Key::Enter ==> final(self)@ == (crate::app::MenuModel {
                running: false,
                action: Some(menu_order()[old(self)@.index as int]),
                ..old(self)@
            }),
            !(key == Key::Char('q') || key == Key::Up || key == Key::Char('k') || key == Key::Down || key
                == Key::Char('j') || key == Key::Enter) ==> final(self)@ == old(self)@,
    {
        match key {
            Key::Char('q') => self.quit(),
            Key::Up | Key::Char('k') => self.previous(),
            Key::Down | Key::Char('j') => self.next(),
            Key::Enter => self.select(),
            _ => {},
        }
    }

    /// The menu rows in display order: the highlighted one marked `> `,
    /// the others indented by two spaces.
    pub fn menu_lines(&self) -> (r: Vec<Vec<char>>)
        ensures
            r@.len() == MENU_LEN,
            forall|i: int|
                0 <= i < MENU_LEN ==> (#[trigger] r@[i])@ == (if i == self@.index {
                    "> "@
                } else {
                    "  "@
                }) + crate::menu::label_text(menu_order()[i]),
    {
        let items = MenuItem::all();
        let selected = self.selected_index();
        let mut lines: Vec<Vec<char>> = Vec::new();
        let mut i: usize = 0;
        while i < items.len()
            invariant
                items@ == menu_order(),
                selected == self@.index,
                i <= MENU_LEN,
                lines@.len() == i,
                forall|j: int|
                    0 <= j < i ==> (#[trigger] lines@[j])@ == (if j == self@.index {
                        "> "@
                    } else {
                        "  "@
                    }) + crate::menu::label_text(menu_order()[j]),
            decreases MENU_LEN - i,
        {
            let mut line: Vec<char> = Vec::new();
            push_str(&mut line, if i == selected { "> " } else { "  " });
            push_str(&mut line, items[i].label());
            lines.push(line);
            i = i + 1;
        }
        lines
    }
}

/// First row of the menu list in a band `height` rows high: the list is
/// centred, or starts at the top if it does not fit.
pub fn menu_top(height: u16) -> (r: u16)
    ensures
        r == (if height > MENU_LEN { height - MENU_LEN } else { 0 }) / 2,
{
    height.saturating_sub(MENU_LEN as u16) / 2
}

impl GameState {
    /// React to a key in the game: arrows or `a` `d` `w` `s` move the
    /// view, Enter pauses or resumes, `q` asks to leave (honoured only while
    /// paused); other keys do nothing.
    pub fn handle_key(&mut self, key: Key)
        requires
            old(self)@.wf(),
        ensures
            final(self)@.wf(),
            (key == Key::Left || key == Key::Char('a')) ==> final(self)@ == (if old(self).paused {
                old(self)@
            } else {
                GameModel { ship_x: clamped_move(old(self).ship_x, -SHIP_STEP), ..old(self)@ }
            }),
            (key == Key::Right || key == Key::Char('d')) ==> final(self)@ == (if old(self).paused {
                old(self)@
            } else {
                GameModel { ship_x: clamped_move(old(self).ship_x, SHIP_STEP as int), ..old(self)@ }
            }),
            (key == Key::Up || key == Key::Char('w')) ==> final(self)@ == (if old(self).paused {
                old(self)@
            } else {
                GameModel { ship_y: clamped_move(old(self).ship_y, -SHIP_STEP), ..old(self)@ }
            }),
            (key == Key::Down || key == Key::Char('s')) ==> final(self)@ == (if old(self).paused {
                old(self)@
            } else {
                GameModel { ship_y: clamped_move(old(self).ship_y, SHIP_STEP as int), ..old(self)@ }
            }),
            key == Key::Enter ==> final(self)@ == (GameModel { paused: !old(self).paused, ..old(self)@ }),
            key == Key::Char('q') ==> final(self)@ == (GameModel {
                should_exit: old(self).should_exit || old(self).paused,
                ..old(self)@
            }),
            !(key == Key::Left || key == Key::Char('a') || key == Key::Right || key == Key::Char('d') || key
                == Key::Up || key == Key::Char('w') || key == Key::Down || key == Key::Char('s') || key == Key::Enter
                || key == Key::Char('q')) ==> final(self)@ == old(self)@,
    {
        match key {
            Key::Left | Key::Char('a') => self.move_left(),
            Key::Right | Key::Char('d') => self.move_right(),
            Key::Up | Key::Char('w') => self.move_up(),
            Key::Down | Key::Char('s') => self.move_down(),
            Key::Enter => self.toggle_pause(),
            Key::Char('q') => self.exit_to_menu(),
            _ => {},
        }
    }
}

} // verus!
