//! A shell session over a pseudo-terminal: the filter that turns raw terminal
//! output into readable text, the ownership of the terminal's descriptor, and
//! the request/response protocol that decides when a command's output is complete.
pub mod text;
pub mod filter;
pub mod pty;
pub mod channel;
