//! Halfcopy hands files from one computer to another. The sender gets a coupon, a number and a
//! few words, and the receiver types it in.
//!
//! This library is what halfcopy decides and computes. The network, the disk and the user
//! interface belong to the program around it, which performs the actions that the state machines
//! here ask for and tells them what came of it.
//!
//! - [`coupon`]: handing over a ticket to the peer who knows a coupon.
//! - [`send`] and [`recv`]: sharing files, and saving what was shared.
//! - [`events`]: what the user interface is told.
//! - [`path`] and [`sorting`]: the names and the order of the files.
//! - [`messages`], [`wire`], [`crypto`] and [`text`]: what these are made of.
//! - [`laws`]: what holds of all of it.

pub mod coupon;
pub mod crypto;
pub mod events;
pub mod laws;
pub mod messages;
pub mod path;
pub mod recv;
pub mod send;
pub mod sorting;
pub mod text;
pub mod wire;
