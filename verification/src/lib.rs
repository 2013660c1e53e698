//! Decision logic of a file transfer tool: a server that hands out paths and
//! stores uploads, and a client that pulls and pushes the files.

pub mod certificate;
pub mod client;
pub mod http;
pub mod protocol;
pub mod queue;
pub mod server;
pub mod text;

pub use queue::FileQueue;
