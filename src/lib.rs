//! Turns text copied from an e-book reader into clean excerpts, and builds
//! flashcards from four successive copies.
pub mod card;
pub mod excerpt;
pub mod laws;
pub mod text;

pub use card::{
    image_tag, progress_at, rep, format_example, Action, CardError, Fields, Note, NoteType,
    Program, Progress, State,
};
pub use excerpt::{remove_excerpt, strip};
