//! A shaped, shadowed, translucent dock panel: the pixel pipeline that draws it
//! and the session state machine that decides which compositor requests to make.
//!
//! Everything here is plain data in, plain data out. The program around this
//! library owns the compositor connection, performs the requests that the
//! session asks for, and hands events and captured frames back in.

pub mod capture;
pub mod geometry;
pub mod pixel;
pub mod render;
pub mod session;
pub mod shm;
