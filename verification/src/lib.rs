//! Clipboard tool for Wayland: the verified core.
//!
//! The library speaks the Wayland wire protocol without touching a socket, a
//! file or a process. It queues packets for its caller to send, takes in what
//! the caller received, and says at each step what is to be done next. All of
//! that is a function of plain values, stated in contracts and proved.
//!
//! * [`bytes`] and [`text`]: words in either byte order; strings and numbers.
//! * [`wire`]: the arguments of requests and events.
//! * [`connection`]: frames, object ids, descriptors, and packets on their way.
//! * [`proto`]: the data-control protocol, one event at a time.
//! * [`copy`] and [`paste`]: the two things the tool does, from start to end.
//! * [`args`] and [`error`]: what the user asks for, and what the user is told.
//! * [`laws`]: what holds of the client as a whole; and piece by piece,
//!   [`layout`] of the byte formats, [`requests`] of what is said to the
//!   compositor, [`events`] of what it says, [`choices`] of what is copied and
//!   pasted, and [`usage`] of the command line.

pub mod args;
pub mod bytes;
pub mod choices;
pub mod connection;
pub mod copy;
pub mod error;
pub mod events;
pub mod laws;
pub mod layout;
pub mod paste;
pub mod proto;
pub mod requests;
pub mod text;
pub mod usage;
pub mod wire;
