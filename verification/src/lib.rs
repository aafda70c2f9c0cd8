//! A modal text-editing engine: a line-oriented buffer with a
//! two-dimensional cursor, key sequences resolved into motions and
//! actions, and the delete engine that applies them.  The engine is
//! pure call-and-return: the host owns the event loop, the screen and
//! the file system, and hands the core resolved keys and plain text.

pub mod actions;
pub mod app;
pub mod buffer;
pub mod context;
pub mod event;
pub mod insert;
pub mod mode;
pub mod motion;
pub mod navigation;
pub mod state;
pub mod textobjects;
pub mod cursor;
pub mod utils;
pub mod words;
