//! Structured editing of decision tables drawn with box-drawing characters.
//!
//! The library keeps the table as a plane of glyphs, moves a cursor over it
//! and performs edits that keep the frame of the table intact: typing into a
//! full cell widens its column through the whole table, deleting removes a
//! column that became redundant, splitting a line opens a row where needed.
//!
//! - [characters]: glyphs and their classification;
//! - [row]: a row of glyphs and the edits inside it;
//! - [text]: reading the text of a table into lines;
//! - [plane]: the rows, the cursor, navigation and edits;
//! - [controller]: a plane with a viewport that follows the cursor;
//! - [session]: the decisions of an interactive host for each event;
//! - [laws]: properties relating several operations.

pub mod characters;
pub mod controller;
pub mod cursor;
pub mod laws;
pub mod plane;
pub mod region;
pub mod row;
pub mod session;
pub mod states;
pub mod text;
pub mod updates;

pub use characters::Char;
pub use controller::Controller;
pub use cursor::{Cursor, CursorShape};
pub use plane::Plane;
pub use region::Region;
pub use row::Row;
pub use session::{Effect, Session, Trigger};
pub use states::{SizeState, SizeStateChange};
pub use updates::Updates;
