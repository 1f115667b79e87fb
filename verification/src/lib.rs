//! View-state engines for a table/grid widget.
//!
//! The crate derives, from a caller-supplied array of records and a column
//! configuration, which rows are visible, focused and selected at any time.
//! Each engine (sort, pagination, focus, selection, virtual scroll, column
//! options) is an explicit state machine: a plain data type whose mutators
//! carry contracts, plus pure derivation functions that recompute the view
//! on each committed input change. The table orchestrator composes them in
//! the fixed order sort, focus resolution, pagination, virtualization.

pub mod bundle;
pub mod column;
pub mod column_widths;
pub mod debounce;
pub mod focus;
pub mod nested;
pub mod objects;
pub mod order;
pub mod pagination;
pub mod partialized_tuple;
pub mod range;
pub mod select;
pub mod setter;
pub mod sort;
pub mod table;
pub mod virtual_scroll;
