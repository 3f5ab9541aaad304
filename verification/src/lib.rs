//! Serving static files from a root directory: how a request path becomes a
//! file-system path that cannot leave the root, how a file's modification time
//! becomes a cache validator, and which response a request is owed.

pub mod handler;
pub mod mime;
pub mod path;
pub mod response;
pub mod serving;
pub mod validator;
