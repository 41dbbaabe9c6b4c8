//! A single-line editor for a raw terminal, with a panel of suggestions for
//! the word under the cursor.
//!
//! The crate holds the logic of the editor and touches no terminal:
//!
//! - [`line`]: the text of the line and the cursor in it;
//! - [`token`]: the word under the cursor, and how a suggestion takes its
//!   place;
//! - [`suggest`]: the catalog of words and the prefix query on it;
//! - [`selection`]: the highlighted suggestion and how it cycles;
//! - [`panel`]: the layout of the suggestion panel and the instructions that
//!   draw it;
//! - [`paint`]: the instructions for the terminal;
//! - [`session`]: what each input event does, as a state machine;
//! - [`text`]: conversions between strings and characters.

pub mod line;
pub mod paint;
pub mod panel;
pub mod selection;
pub mod session;
pub mod suggest;
pub mod text;
pub mod token;

pub use crate::suggest::get_suggestions;
pub use crate::token::{get_current_token, update_line_with_suggestion};
