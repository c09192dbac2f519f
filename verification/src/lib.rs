//! Message processing, dialogue decisions and job bookkeeping for a
//! speech-to-text Telegram bot and its transcription server.

pub mod text;
pub mod markup;
pub mod chunks;
pub mod words;
pub mod fetch;
pub mod dialogue;
pub mod errors;
pub mod api;
pub mod jobs;
