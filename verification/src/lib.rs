//! A minimal modal text editor core: an in-memory line buffer, a cursor and
//! scroll model, a mode state machine over Normal / Insert / Command, a
//! colon-command interpreter, and a renderer that computes a drawing plan.
//! All terminal and file I/O lives outside this crate; the core exchanges
//! plain values (key events in, requested actions out) with its driver.
pub mod command;
pub mod laws;
pub mod render;
pub mod state;
pub mod step;
pub mod text;

pub use render::DrawPlan;
pub use state::Action;
pub use state::Editor;
pub use state::Key;
pub use state::Mode;
pub use text::join_lines;
pub use text::split_lines;
