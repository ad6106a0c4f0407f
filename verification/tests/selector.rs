//! End-to-end scenarios for the selector: readiness delivery over real
//! pipes and socket pairs.

use mio::event::{Interest, PollOpt};
use mio::error::MioError;
use mio::poll::{translate_batch, Events, Registration, Selector, EP_IN, EP_OUT};
use nix::sys::socket::{socketpair, AddressFamily, SockFlag, SockType};

fn make_pipe() -> (i32, i32) {
    nix::unistd::pipe().expect("pipe")
}

fn write_all(fd: i32, data: &[u8]) {
    let n = nix::unistd::write(fd, data).expect("write");
    assert_eq!(n, data.len());
}

#[test]
fn level_read_pipe_renotifies() {
    let mut sel = Selector::new().unwrap();
    let (r, w) = make_pipe();
    sel.register(r, 7, Interest::readable(), PollOpt::level()).unwrap();
    write_all(w, b"abcd");

    let mut evts = Events::new();
    sel.select(&mut evts, 100).unwrap();
    assert_eq!(evts.len(), 1);
    let e = evts.get(0);
    assert_eq!(e.token(), 7);
    assert!(e.kind().is_readable());

    // Nothing was read: a level registration is notified again.
    sel.select(&mut evts, 100).unwrap();
    assert_eq!(evts.len(), 1);
    let e2 = evts.get(0);
    assert_eq!(e2.token(), 7);
    assert!(e2.kind().is_readable());

    nix::unistd::close(r).unwrap();
    nix::unistd::close(w).unwrap();
}

#[test]
fn edge_read_fires_once() {
    let mut sel = Selector::new().unwrap();
    let (r, w) = make_pipe();
    sel.register(r, 9, Interest::readable(), PollOpt::edge()).unwrap();
    write_all(w, b"abcd");

    let mut evts = Events::new();
    sel.select(&mut evts, 100).unwrap();
    assert_eq!(evts.len(), 1);
    assert_eq!(evts.get(0).token(), 9);
    assert!(evts.get(0).kind().is_readable());

    // No new transition: an edge registration stays silent.
    sel.select(&mut evts, 50).unwrap();
    assert_eq!(evts.len(), 0);

    nix::unistd::close(r).unwrap();
    nix::unistd::close(w).unwrap();
}

#[test]
fn oneshot_write_readiness_rearms_on_reregister() {
    let mut sel = Selector::new().unwrap();
    let (a, b) = socketpair(AddressFamily::Unix, SockType::Stream, None, SockFlag::empty())
        .expect("socketpair");
    let opts = PollOpt::level().union(PollOpt::oneshot());
    sel.register(a, 5, Interest::writable(), opts).unwrap();

    let mut evts = Events::new();
    sel.select(&mut evts, 100).unwrap();
    assert_eq!(evts.len(), 1);
    assert_eq!(evts.get(0).token(), 5);
    assert!(evts.get(0).kind().is_writable());

    // The one-shot registration is disarmed after one delivery.
    sel.select(&mut evts, 50).unwrap();
    assert_eq!(evts.len(), 0);

    // Reregistering re-arms it.
    sel.reregister(a, 5, Interest::writable(), opts).unwrap();
    sel.select(&mut evts, 100).unwrap();
    assert_eq!(evts.len(), 1);
    assert!(evts.get(0).kind().is_writable());

    nix::unistd::close(a).unwrap();
    nix::unistd::close(b).unwrap();
}

#[test]
fn hangup_detected_on_writer_close() {
    let mut sel = Selector::new().unwrap();
    let (r, w) = make_pipe();
    sel.register(r, 1, Interest::readable().union(Interest::hup()), PollOpt::level()).unwrap();
    nix::unistd::close(w).unwrap();

    let mut evts = Events::new();
    sel.select(&mut evts, 100).unwrap();
    assert_eq!(evts.len(), 1);
    assert_eq!(evts.get(0).token(), 1);
    assert!(evts.get(0).kind().is_hup());

    nix::unistd::close(r).unwrap();
}

#[test]
fn deregister_before_select_suppresses_event() {
    let mut sel = Selector::new().unwrap();
    let (r, w) = make_pipe();
    sel.register(r, 3, Interest::readable(), PollOpt::level()).unwrap();
    write_all(w, b"x");
    sel.deregister(r).unwrap();

    let mut evts = Events::new();
    sel.select(&mut evts, 10).unwrap();
    assert_eq!(evts.len(), 0);

    nix::unistd::close(r).unwrap();
    nix::unistd::close(w).unwrap();
}

#[test]
fn change_buffer_overflow_flushes_internally() {
    let mut sel = Selector::with_change_capacity(4).unwrap();
    let mut pipes = Vec::new();
    for token in 0..10usize {
        let (r, w) = make_pipe();
        sel.register(r, token, Interest::readable(), PollOpt::level()).unwrap();
        pipes.push((r, w));
    }
    for &(_, w) in pipes.iter() {
        write_all(w, b"y");
    }
    let mut evts = Events::new();
    sel.select(&mut evts, 100).unwrap();
    assert_eq!(evts.len(), 10);
    let mut tokens: Vec<usize> = (0..evts.len()).map(|i| evts.get(i).token()).collect();
    tokens.sort();
    let expected: Vec<usize> = (0..10usize).collect();
    assert_eq!(tokens, expected);
    for &(r, w) in pipes.iter() {
        nix::unistd::close(r).unwrap();
        nix::unistd::close(w).unwrap();
    }
}

#[test]
fn registration_errors_are_exact() {
    let mut sel = Selector::new().unwrap();
    let (r, w) = make_pipe();

    // Both or neither of edge and level is incoherent.
    let both = PollOpt::edge().union(PollOpt::level());
    assert_eq!(sel.register(r, 0, Interest::readable(), both), Err(MioError::InvalidArgument));
    assert_eq!(
        sel.register(r, 0, Interest::readable(), PollOpt::oneshot()),
        Err(MioError::InvalidArgument)
    );

    sel.register(r, 0, Interest::readable(), PollOpt::level()).unwrap();
    assert_eq!(
        sel.register(r, 1, Interest::readable(), PollOpt::level()),
        Err(MioError::AlreadyExists)
    );

    assert_eq!(sel.deregister(w), Err(MioError::NotFound));
    assert_eq!(
        sel.reregister(w, 2, Interest::readable(), PollOpt::level()),
        Err(MioError::NotFound)
    );

    sel.deregister(r).unwrap();
    assert_eq!(sel.deregister(r), Err(MioError::NotFound));

    nix::unistd::close(r).unwrap();
    nix::unistd::close(w).unwrap();
}

#[test]
fn reregister_replaces_interests() {
    let mut sel = Selector::new().unwrap();
    let (a, b) = socketpair(AddressFamily::Unix, SockType::Stream, None, SockFlag::empty())
        .expect("socketpair");
    // A fresh stream socket is writable but not readable.
    sel.register(a, 11, Interest::readable(), PollOpt::level()).unwrap();
    let mut evts = Events::new();
    sel.select(&mut evts, 50).unwrap();
    assert_eq!(evts.len(), 0);

    // Swapping the interest (and the token) takes effect on the next wait.
    sel.reregister(a, 12, Interest::writable(), PollOpt::level()).unwrap();
    sel.select(&mut evts, 100).unwrap();
    assert_eq!(evts.len(), 1);
    assert_eq!(evts.get(0).token(), 12);
    assert!(evts.get(0).kind().is_writable());

    nix::unistd::close(a).unwrap();
    nix::unistd::close(b).unwrap();
}

#[test]
fn zero_timeout_polls() {
    let mut sel = Selector::new().unwrap();
    let (r, w) = make_pipe();
    sel.register(r, 8, Interest::readable(), PollOpt::level()).unwrap();
    let mut evts = Events::new();
    sel.select(&mut evts, 0).unwrap();
    assert_eq!(evts.len(), 0);
    write_all(w, b"z");
    sel.select(&mut evts, 0).unwrap();
    assert_eq!(evts.len(), 1);
    nix::unistd::close(r).unwrap();
    nix::unistd::close(w).unwrap();
}

#[test]
fn events_container_shape() {
    let evts = Events::new();
    assert_eq!(evts.len(), 0);
    assert!(evts.is_empty());
    assert_eq!(evts.capacity(), 1024);
    let small = Events::with_capacity(2);
    assert_eq!(small.capacity(), 2);
}

#[test]
fn selector_close_releases_the_handle() {
    let sel = Selector::new().unwrap();
    sel.close().unwrap();
}

#[test]
fn translation_is_deterministic() {
    let regs = vec![
        Registration {
            fd: 5,
            token: 9,
            interests: Interest::readable(),
            opts: PollOpt::level(),
        },
        Registration {
            fd: 6,
            token: 2,
            interests: Interest::writable(),
            opts: PollOpt::level(),
        },
    ];
    // A record with no decoded categories, a delivery, a duplicate for the
    // same descriptor, a stale record, and a second registration's record.
    let raw = vec![(0u32, 5u64), (EP_IN, 5), (EP_IN, 5), (EP_IN, 7), (EP_OUT, 6)];
    let mut evts = Events::with_capacity(8);
    translate_batch(&regs, &raw, &mut evts);
    assert_eq!(evts.len(), 2);
    assert_eq!(evts.get(0).token(), 9);
    assert!(evts.get(0).kind().is_readable());
    assert_eq!(evts.get(1).token(), 2);
    assert!(evts.get(1).kind().is_writable());
}
