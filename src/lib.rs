//! Renders homogeneous records in an "expanded display" layout: one block per
//! record, one aligned `label | value` line per field.

pub mod escape;
pub mod expanded_display;
pub mod laws;
pub mod layout;
pub mod text;

pub use expanded_display::{
    ExpandedDisplay, RecordHead, RecordHeadFormatter, Tabled, ValueFormatter, ValueStyle,
};
pub use layout::{render_records, write_record_line};
