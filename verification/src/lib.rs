//! A low-level, readiness-based, non-blocking I/O event-notification library.
//!
//! The core is the [`poll::Selector`]: it owns a kernel polling descriptor,
//! translates a portable (interest, options, token) registration model into
//! the kernel's change protocol, and delivers coalesced readiness events.
//! Around it stand the bitset vocabulary ([`event::Interest`],
//! [`event::PollOpt`]), the uniform event record ([`event::IoEvent`]), and a
//! thin layer of non-blocking socket types.

pub mod error;
pub mod event;
pub mod io;
pub mod net;
pub mod os;
pub mod parse;
pub mod poll;
pub mod tcp;
pub mod udp;
pub mod unix;

pub use error::{MioError, MioResult};
pub use event::{Interest, IoEvent, PollOpt};
pub use io::NonBlock;
pub use poll::{Events, Selector};
