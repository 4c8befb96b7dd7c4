//! Core of a keyboard-driven document viewer.
//!
//! The library holds the logic that decides what the viewer does: a modal,
//! Vim-like navigation state machine, a bounded page cache with a
//! proximity-based eviction policy, a prefetch scheduler for the pages around
//! the current one, and the controller state that ties them together. The
//! rendering engine and the windowing layer are outside collaborators; the
//! library speaks to them through plain values (page indices, pixel buffers,
//! render requests) so that every decision here is verified.

pub mod cache;
pub mod input;
pub mod pdf;
pub mod scheduler;
pub mod ui;

pub use input::KeyHandler;
pub use pdf::Document;
pub use pdf::PdfRenderer;
pub use ui::ViewerApp;
pub use ui::ViewerConfig;
