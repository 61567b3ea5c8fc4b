//! A terminal table widget core: column-width resolution under mixed sizing
//! constraints, and bordered-grid painting into a character/style cell buffer.
//!
//! The crate owns no I/O. Callers hand it plain values (header strings, row
//! strings, width constraints) and a cell buffer; the renderer mutates only
//! the cells inside the rectangle it is given.

pub mod style;
pub mod buffer;
pub mod solver;
pub mod render;
pub mod table;

pub use style::Color;
pub use style::Style;
pub use style::Cell;
pub use buffer::Rect;
pub use buffer::CellBuffer;
pub use solver::Constraint;
pub use render::Row;
pub use table::GriddedTable;
