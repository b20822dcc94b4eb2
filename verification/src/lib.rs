//! A small HTTP server that lets a browser switch a lamp, and the driver of the bus that its
//! wireless chip hangs on.
//!
//! Neither does any input or output of its own: the server says which action comes next and is
//! told how it went, and the driver lists the commands that a state machine is to be given.
pub mod handler;
pub mod machine;
pub mod pio_spi;
pub mod request;
pub mod response;
pub mod server;
pub mod text;
pub mod write_buf;
