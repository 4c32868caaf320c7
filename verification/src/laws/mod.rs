//! What the library promises as a whole.
//!
//! The contracts say of each function what it returns. Here it is said, over
//! the events, files, texts and numbers that users see, what that amounts to.

pub mod clouds;
pub mod messages;
pub mod numbers;
pub mod operations;
pub mod parts;
pub mod payloads;
pub mod playing;
pub mod running;
pub mod serving;
pub mod settings;
pub mod speaking;
pub mod texts;
pub mod voices;
pub mod waves;
