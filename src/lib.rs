//! A terminal arcade game: a start menu, and a trench run drawn with text
//! characters in a pseudo-3D perspective.
//!
//! The library holds the menu and game state machines and the pure layer
//! functions that turn their state into characters. Drawing to a terminal and
//! reading keys is left to the caller.
pub mod app;
pub mod controls;
pub mod enemy;
pub mod game;
pub mod menu;
pub mod text;
pub mod view;

pub use app::App;
pub use controls::{after_menu, menu_top, Flow, Key};
pub use enemy::{Enemy, EnemyType};
pub use game::{GameState, Laser};
pub use menu::MenuItem;
pub use view::{cockpit_art, pause_origin, pause_text, Sprite};
