//! Page states: the decision logic of each page, free of rendering and
//! I/O.  The surrounding application performs fetches and file access
//! and feeds the outcomes back in as plain values.

pub mod following;
pub mod settings;
pub mod timeline;
pub mod view;
