//! The verified core of a server-side rendered web application: its
//! configuration model, the error answers it gives, the rules of its
//! file-hash cache and the path arithmetic it relies on.

pub mod codes;
pub mod text;
pub mod api;
pub mod payload;
pub mod errors;
pub mod handler;
pub mod paths;
pub mod hashing;
pub mod fallback;
pub mod watch;
pub mod config;
pub mod server;
