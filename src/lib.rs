//! A small interactive command-line menu: a title, an ordered list of keyed
//! options with actions, and the decisions of its render/read/dispatch loop.
//!
//! The library decides; the caller does the terminal work. Each cycle the
//! caller writes `Clim::menu_lines`, reads one line, hands it to
//! `Clim::advance`, runs the action of the entry it names, and stops once the
//! returned state is `MenuState::Stopped`. `session::run_from` describes the
//! whole course of such a loop over a sequence of reads.

pub mod menu;
pub mod option;
pub mod session;

pub use menu::{Clim, MenuState, Turn};
pub use option::{MenuOption, OptionView};
pub use session::{Effect, Finish, Session};
