//! A two-player turn-based board-game backend: players create a game, take
//! alternating moves on a 3x3 board, and the service tracks board state, turn
//! ownership, win detection, and game lifecycle, while exposing paginated
//! listings of games.
//!
//! The crate is organised by component:
//! - [`model`]: the entity model (games, moves, errors, pages) with its
//!   spec-level views and the game well-formedness invariant;
//! - [`win`]: the pure win detector over a 9-cell board;
//! - [`text`]: parsing of `"x,y"` move text and decimal rendering of ids;
//! - [`machine`]: validation and application of one move to one game;
//! - [`page`]: slicing an ordered collection into fixed-size pages;
//! - [`store`]: the game store owning the ordered game collection and the
//!   monotonic id counter, with the create/get/list/move/delete operations.
//!
//! Caller identity is received as an opaque, already-validated string token;
//! resolving it, as well as transport and durable storage, are left to the
//! surrounding host program.

pub mod machine;
pub mod model;
pub mod page;
pub mod store;
pub mod text;
pub mod win;
