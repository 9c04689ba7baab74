//! A multiprocess function-call fabric: typed channels over UNIX domain
//! socket pairs, an object-wire codec that carries file descriptors
//! out-of-band, relocatable code pointers, and the decision logic of the
//! spawn handshake and of the child lifecycle (join, kill).
//!
//! The operating-system calls themselves stand behind small trusted
//! wrappers around `rustix`; everything that frames, encodes, decodes or
//! decides is verified.

pub mod channel;
pub mod child;
pub mod codec;
pub mod error;
pub mod frame;
pub mod handle;
pub mod reloc;
pub mod spawn;
mod sys;
pub mod wire;
