//! Unit tests for the readiness vocabulary and the error classification.

use mio::error::{MioError, ERRNO_EAGAIN, ERRNO_EEXIST, ERRNO_EINVAL, ERRNO_EMFILE, ERRNO_ENOENT};
use mio::event::{Interest, IoEvent, PollOpt};

#[test]
fn interest_union_and_contains() {
    let rw = Interest::readable().union(Interest::writable());
    assert!(rw.is_readable());
    assert!(rw.is_writable());
    assert!(!rw.is_hup());
    assert!(rw.contains(Interest::readable()));
    assert!(rw.contains(Interest::writable()));
    assert!(!rw.contains(Interest::hup()));
    assert!(!Interest::readable().contains(rw));
    assert!(rw.contains(Interest::none()));
}

#[test]
fn interest_empty() {
    assert!(Interest::none().is_empty());
    assert!(!Interest::error().is_empty());
    assert!(!Interest::oob().is_empty());
}

#[test]
fn interest_intersection() {
    let rw = Interest::readable().union(Interest::writable());
    let rh = Interest::readable().union(Interest::hup());
    let both = rw.intersect(rh);
    assert!(both.is_readable());
    assert!(!both.is_writable());
    assert!(!both.is_hup());
    assert!(rw.intersect(Interest::none()).is_empty());
}

#[test]
fn pollopt_trigger_validity() {
    assert!(PollOpt::edge().trigger_valid());
    assert!(PollOpt::level().trigger_valid());
    assert!(!PollOpt::none().trigger_valid());
    assert!(!PollOpt::oneshot().trigger_valid());
    assert!(!PollOpt::edge().union(PollOpt::level()).trigger_valid());
    assert!(PollOpt::level().union(PollOpt::oneshot()).trigger_valid());
    assert!(PollOpt::edge().union(PollOpt::oneshot()).contains(PollOpt::oneshot()));
    let eo = PollOpt::edge().union(PollOpt::oneshot());
    let lo = PollOpt::level().union(PollOpt::oneshot());
    assert_eq!(eo.intersect(lo), PollOpt::oneshot());
}

#[test]
fn io_event_accessors() {
    let e = IoEvent::new(Interest::readable().union(Interest::hup()), 42);
    assert_eq!(e.token(), 42);
    assert!(e.kind().is_readable());
    assert!(e.kind().is_hup());
    assert!(!e.kind().is_writable());
}

#[test]
fn errno_classification() {
    assert_eq!(MioError::from_errno(ERRNO_EAGAIN), MioError::WouldBlock);
    assert_eq!(MioError::from_errno(ERRNO_ENOENT), MioError::NotFound);
    assert_eq!(MioError::from_errno(ERRNO_EEXIST), MioError::AlreadyExists);
    assert_eq!(MioError::from_errno(ERRNO_EINVAL), MioError::InvalidArgument);
    assert_eq!(MioError::from_errno(ERRNO_EMFILE), MioError::Resource(ERRNO_EMFILE));
    assert_eq!(MioError::from_errno(71), MioError::Io(71));
    assert!(MioError::WouldBlock.is_would_block());
    assert!(!MioError::NotFound.is_would_block());
}
