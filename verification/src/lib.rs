//! An HTTP server core: it tells a TCP address from a Unix socket path, runs
//! the accept loop as a state machine, turns each request into a structured
//! value for a handler, and turns what the handler returns into a response.

pub mod accept;
pub mod address;
pub mod assoc;
pub mod command;
pub mod datum;
pub mod json;
pub mod request;
pub mod response;
pub mod text;
pub mod wire;

pub use command::HttpServe;
pub use response::content_type_header;
