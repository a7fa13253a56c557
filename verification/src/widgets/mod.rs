//! What the typing UI's widgets show, computed apart from drawing: the
//! body's rows, the cursor and the pending wrong keystrokes, the
//! line-number gutter, the frame chrome, the footer and the summary
//! panel.

pub mod body;
pub mod chrome;
pub mod footer;
pub mod gutter;
pub mod summary;
