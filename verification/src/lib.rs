//! A colored variant of Conway's Game of Life for character terminals.
//!
//! The library holds the verified core: the cell and color model, the
//! board with its neighbor-counting and color-resolution step rule,
//! population statistics, frame rendering as a sequence of draw
//! operations, and the per-frame session-state transitions. A thin
//! unverified shell drives the terminal around it.

pub mod board;
pub mod cell;
pub mod game;
pub mod laws;
pub mod render;
pub mod text;

pub use board::Board;
pub use cell::Cell;
pub use cell::Color;
pub use game::Action;
pub use game::Config;
pub use game::Game;
pub use game::InputEvent;
pub use game::Key;
pub use game::KeyKind;
pub use game::PointerAction;
pub use game::PointerButton;
pub use render::DrawOp;
