//! The decisions of a localhost import helper: the record of import jobs, the
//! loading of the native engine, the framing of what the engine returns, and
//! what each HTTP endpoint answers. Sockets, files and the engine's C calls are
//! the business of the program around this library.

pub mod clock;
pub mod engine;
pub mod fingerprint;
pub mod formats;
pub mod frame;
pub mod http;
pub mod jobs;
pub mod json;
pub mod laws;
pub mod pick;
pub mod run;
pub mod slot;
pub mod text;
