//! Core logic for a live cricket-score terminal dashboard.
//!
//! The verified library holds the data model (`score`), the last-known-good
//! snapshot cache (`cache`), the retry/backoff policy of the score source
//! (`source`), the pure projection from cached state to display lines
//! (`render`), and the event-loop state machine (`event_loop`). Terminal
//! setup, drawing and input polling are collaborators that live outside the
//! library and only exchange plain values with it.

pub mod cache;
pub mod event_loop;
pub mod render;
pub mod score;
pub mod source;
