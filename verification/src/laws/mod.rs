//! What holds of halfcopy, whatever its parts are made of: what each step is for, what a whole run
//! comes to, and what is written on the wire.

pub mod coupon;
pub mod events;
pub mod path;
pub mod recv;
pub mod send;
pub mod text;
pub mod wire;
