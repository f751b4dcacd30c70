//! A string interning pool: equal text collapses to one canonical,
//! shareable handle, with short and constant text kept off the table.
pub mod handle;
pub mod order;
pub mod render;
pub mod stack;
pub mod table;
