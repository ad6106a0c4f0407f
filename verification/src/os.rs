//! Trusted boundary to the operating system.
//!
//! Every `external_body` function here makes one kernel call through the
//! `nix` crate, or converts one of `nix`'s values, carrying plain values
//! across the boundary. The contracts state only what the kernel interface
//! documents; all logic above them is verified.
//!
//! Errors are handed back as the raw errno value (always positive), which
//! [`crate::error::MioError::from_errno`] classifies in verified code.

use vstd::prelude::*;

use crate::net::{AddressFamily, IpAddr, SockAddr, SocketType};
use nix::errno::Errno;
use nix::sys::socket as nsock;
use nix::sys::socket::sockopt;
use crate::poll::ChangeOp;
use nix::sys::epoll::{epoll_create1, epoll_ctl, epoll_wait, EpollCreateFlags, EpollEvent, EpollFlags, EpollOp};

verus! {

/// Relies on nix's `epoll_create1` (with close-on-exec): on success the
/// kernel returns a fresh nonnegative polling descriptor.
#[verifier::external_body]
pub(crate) fn sys_epoll_create() -> (r: Result<i32, i32>)
    ensures
        r is Ok ==> r->Ok_0 >= 0,
{
    epoll_create1(EpollCreateFlags::EPOLL_CLOEXEC).map_err(|e| e as i32)
}

/// Relies on nix's `epoll_ctl`: submits one add, modify or delete change for
/// `fd` on the polling descriptor `epfd`, with the given event mask and
/// user data. Returns unit on success, the errno on failure.
#[verifier::external_body]
pub(crate) fn sys_epoll_ctl(epfd: i32, op: ChangeOp, fd: i32, mask: u32, data: u64) -> (r: Result<
    (),
    i32,
>) {
    let nix_op = match op {
        ChangeOp::Add => EpollOp::EpollCtlAdd,
        ChangeOp::Mod => EpollOp::EpollCtlMod,
        ChangeOp::Del => EpollOp::EpollCtlDel,
    };
    let mut ev = EpollEvent::new(EpollFlags::from_bits_truncate(mask as i32), data);
    epoll_ctl(epfd, nix_op, fd, &mut ev).map_err(|e| e as i32)
}

/// Relies on nix's `epoll_wait`: blocks up to `timeout_ms` milliseconds
/// (negative: indefinitely) and reports at most `cap` ready entries, each as
/// the kernel's event mask plus the user data stored at registration time.
#[verifier::external_body]
pub(crate) fn sys_epoll_wait(epfd: i32, cap: usize, timeout_ms: i32) -> (r: Result<
    Vec<(u32, u64)>,
    i32,
>)
    ensures
        r is Ok ==> r->Ok_0@.len() <= cap,
{
    let mut buf = vec![EpollEvent::empty(); cap];
    match epoll_wait(epfd, &mut buf, timeout_ms as isize) {
        Ok(n) => {
            let mut out: Vec<(u32, u64)> = Vec::with_capacity(n);
            let mut i: usize = 0;
            while i < n && i < buf.len() {
                out.push((buf[i].events().bits() as u32, buf[i].data()));
                i += 1;
            }
            Ok(out)
        }
        Err(e) => Err(e as i32),
    }
}

/// Relies on nix's `close`: releases the descriptor.
#[verifier::external_body]
pub(crate) fn sys_close(fd: i32) -> (r: Result<(), i32>) {
    nix::unistd::close(fd).map_err(|e| e as i32)
}

/// Relies on nix's `socket`: creates a non-blocking, close-on-exec socket
/// of the given family and type; on success the descriptor is nonnegative.
#[verifier::external_body]
pub(crate) fn sys_socket(family: AddressFamily, ty: SocketType) -> (r: Result<i32, i32>)
    ensures
        r is Ok ==> r->Ok_0 >= 0,
{
    let dom = match family {
        AddressFamily::Inet => nsock::AddressFamily::Inet,
        AddressFamily::Inet6 => nsock::AddressFamily::Inet6,
        AddressFamily::Unix => nsock::AddressFamily::Unix,
    };
    let sty = match ty {
        SocketType::Dgram => nsock::SockType::Datagram,
        SocketType::Stream => nsock::SockType::Stream,
    };
    let flags = nsock::SockFlag::SOCK_NONBLOCK | nsock::SockFlag::SOCK_CLOEXEC;
    nsock::socket(dom, sty, flags, None).map_err(|e| e as i32)
}

/// Relies on nix's `bind` with an IPv4 socket address built from the
/// octets and port.
#[verifier::external_body]
pub(crate) fn sys_bind_v4(fd: i32, a: u8, b: u8, c: u8, d: u8, port: u16) -> (r: Result<(), i32>) {
    let addr = nsock::SockaddrIn::new(a, b, c, d, port);
    nsock::bind(fd, &addr).map_err(|e| e as i32)
}

/// Relies on nix's `bind` with an IPv6 socket address built from the
/// eight groups and port.
#[verifier::external_body]
#[allow(deprecated)]
pub(crate) fn sys_bind_v6(fd: i32, g: [u16; 8], port: u16) -> (r: Result<(), i32>) {
    let ip = nsock::IpAddr::new_v6(g[0], g[1], g[2], g[3], g[4], g[5], g[6], g[7]);
    let addr = nsock::SockAddr::new_inet(nsock::InetAddr::new(ip, port));
    nsock::bind(fd, &addr).map_err(|e| e as i32)
}

/// Relies on nix's `bind` with a Unix-domain socket address named by
/// `path`.
#[verifier::external_body]
pub(crate) fn sys_bind_unix(fd: i32, path: &str) -> (r: Result<(), i32>) {
    match nsock::UnixAddr::new(path) {
        Ok(addr) => nsock::bind(fd, &addr).map_err(|e| e as i32),
        Err(e) => Err(e as i32),
    }
}

/// Relies on nix's `connect` with an IPv4 address: true when the
/// connection completed immediately, false when it is in progress.
#[verifier::external_body]
pub(crate) fn sys_connect_v4(fd: i32, a: u8, b: u8, c: u8, d: u8, port: u16) -> (r: Result<
    bool,
    i32,
>) {
    let addr = nsock::SockaddrIn::new(a, b, c, d, port);
    match nsock::connect(fd, &addr) {
        Ok(()) => Ok(true),
        Err(Errno::EINPROGRESS) => Ok(false),
        Err(e) => Err(e as i32),
    }
}

/// Relies on nix's `connect` with an IPv6 address: true when the
/// connection completed immediately, false when it is in progress.
#[verifier::external_body]
#[allow(deprecated)]
pub(crate) fn sys_connect_v6(fd: i32, g: [u16; 8], port: u16) -> (r: Result<bool, i32>) {
    let ip = nsock::IpAddr::new_v6(g[0], g[1], g[2], g[3], g[4], g[5], g[6], g[7]);
    let addr = nsock::SockAddr::new_inet(nsock::InetAddr::new(ip, port));
    match nsock::connect(fd, &addr) {
        Ok(()) => Ok(true),
        Err(Errno::EINPROGRESS) => Ok(false),
        Err(e) => Err(e as i32),
    }
}

/// Relies on nix's `connect` with a Unix-domain address: true when the
/// connection completed immediately, false when it is in progress.
#[verifier::external_body]
pub(crate) fn sys_connect_unix(fd: i32, path: &str) -> (r: Result<bool, i32>) {
    let addr = match nsock::UnixAddr::new(path) {
        Ok(a) => a,
        Err(e) => return Err(e as i32),
    };
    match nsock::connect(fd, &addr) {
        Ok(()) => Ok(true),
        Err(Errno::EINPROGRESS) => Ok(false),
        Err(e) => Err(e as i32),
    }
}

/// Binds `fd` to `addr`, dispatching on the address family.
pub(crate) fn sys_bind(fd: i32, addr: &SockAddr) -> (r: Result<(), i32>) {
    match addr {
        SockAddr::InetAddr(IpAddr::V4(a, b, c, d), port) => sys_bind_v4(
            fd,
            *a,
            *b,
            *c,
            *d,
            *port,
        ),
        SockAddr::InetAddr(IpAddr::V6(g), port) => sys_bind_v6(fd, *g, *port),
        SockAddr::UnixAddr(path) => sys_bind_unix(fd, path.as_str()),
    }
}

/// Starts connecting `fd` to `addr`, dispatching on the address family;
/// true when the connection completed immediately.
pub(crate) fn sys_connect(fd: i32, addr: &SockAddr) -> (r: Result<bool, i32>) {
    match addr {
        SockAddr::InetAddr(IpAddr::V4(a, b, c, d), port) => sys_connect_v4(
            fd,
            *a,
            *b,
            *c,
            *d,
            *port,
        ),
        SockAddr::InetAddr(IpAddr::V6(g), port) => sys_connect_v6(fd, *g, *port),
        SockAddr::UnixAddr(path) => sys_connect_unix(fd, path.as_str()),
    }
}

/// Relies on nix's `listen`.
#[verifier::external_body]
pub(crate) fn sys_listen(fd: i32, backlog: usize) -> (r: Result<(), i32>) {
    nsock::listen(fd, backlog).map_err(|e| e as i32)
}

/// Relies on nix's `accept4`: accepts one pending connection as a
/// non-blocking, close-on-exec socket; on success the descriptor is
/// nonnegative.
#[verifier::external_body]
pub(crate) fn sys_accept(fd: i32) -> (r: Result<i32, i32>)
    ensures
        r is Ok ==> r->Ok_0 >= 0,
{
    let flags = nsock::SockFlag::SOCK_NONBLOCK | nsock::SockFlag::SOCK_CLOEXEC;
    nsock::accept4(fd, flags).map_err(|e| e as i32)
}

/// Relies on nix's `getsockname`: the socket's bound address, in the
/// kernel's storage form.
#[verifier::external_body]
pub(crate) fn sys_getsockname_raw(fd: i32) -> (r: Result<nsock::SockaddrStorage, i32>) {
    nsock::getsockname::<nsock::SockaddrStorage>(fd).map_err(|e| e as i32)
}

/// Relies on nix's `getpeername`: the peer's address, in the kernel's
/// storage form.
#[verifier::external_body]
pub(crate) fn sys_getpeername_raw(fd: i32) -> (r: Result<nsock::SockaddrStorage, i32>) {
    nsock::getpeername::<nsock::SockaddrStorage>(fd).map_err(|e| e as i32)
}

/// Reads the bound address of a socket as plain values.
pub(crate) fn sys_getsockname(fd: i32) -> (r: Result<SockAddr, i32>) {
    match sys_getsockname_raw(fd) {
        Ok(ss) => storage_to_addr(&ss),
        Err(e) => Err(e),
    }
}

/// Reads the peer address of a socket as plain values.
pub(crate) fn sys_getpeername(fd: i32) -> (r: Result<SockAddr, i32>) {
    match sys_getpeername_raw(fd) {
        Ok(ss) => storage_to_addr(&ss),
        Err(e) => Err(e),
    }
}

/// Relies on nix's `read`: at most `buf.len()` bytes are read into the
/// front of `buf`.
#[verifier::external_body]
pub(crate) fn sys_read(fd: i32, buf: &mut [u8]) -> (r: Result<usize, i32>)
    ensures
        r is Ok ==> r->Ok_0 <= old(buf)@.len() && final(buf)@.len() == old(buf)@.len(),
{
    nix::unistd::read(fd, buf).map_err(|e| e as i32)
}

/// Relies on nix's `write`: at most `buf.len()` bytes of `buf` are
/// written.
#[verifier::external_body]
pub(crate) fn sys_write(fd: i32, buf: &[u8]) -> (r: Result<usize, i32>)
    ensures
        r is Ok ==> r->Ok_0 <= buf@.len(),
{
    nix::unistd::write(fd, buf).map_err(|e| e as i32)
}

/// Relies on nix's `sendto` with an IPv4 destination: at most `buf.len()`
/// bytes are sent.
#[verifier::external_body]
pub(crate) fn sys_sendto_v4(fd: i32, buf: &[u8], a: u8, b: u8, c: u8, d: u8, port: u16) -> (r:
    Result<usize, i32>)
    ensures
        r is Ok ==> r->Ok_0 <= buf@.len(),
{
    let addr = nsock::SockaddrIn::new(a, b, c, d, port);
    nsock::sendto(fd, buf, &addr, nsock::MsgFlags::empty())
        .map_err(|e| e as i32)
}

/// Relies on nix's `sendto` with an IPv6 destination: at most `buf.len()`
/// bytes are sent.
#[verifier::external_body]
#[allow(deprecated)]
pub(crate) fn sys_sendto_v6(
    fd: i32,
    buf: &[u8],
    g: [u16; 8],
    port: u16,
) -> (r: Result<usize, i32>)
    ensures
        r is Ok ==> r->Ok_0 <= buf@.len(),
{
    let ip = nsock::IpAddr::new_v6(g[0], g[1], g[2], g[3], g[4], g[5], g[6], g[7]);
    let addr = nsock::SockAddr::new_inet(nsock::InetAddr::new(ip, port));
    nsock::sendto(fd, buf, &addr, nsock::MsgFlags::empty())
        .map_err(|e| e as i32)
}

/// Relies on nix's `recvfrom`: at most `buf.len()` bytes arrive at the
/// front of `buf`, with the sender's address in the kernel's storage form
/// when the kernel reports one.
#[verifier::external_body]
pub(crate) fn sys_recvfrom_raw(fd: i32, buf: &mut [u8]) -> (r: Result<
    (usize, Option<nsock::SockaddrStorage>),
    i32,
>)
    ensures
        r is Ok ==> r->Ok_0.0 <= old(buf)@.len() && final(buf)@.len() == old(buf)@.len(),
{
    match nsock::recvfrom::<nsock::SockaddrStorage>(fd, buf) {
        Ok((n, ss)) => Ok((n, ss)),
        Err(e) => Err(e as i32),
    }
}

/// Sends `buf` as one datagram to `addr`, dispatching on the address
/// family; a Unix-domain target is refused as invalid.
pub(crate) fn sys_sendto(fd: i32, buf: &[u8], addr: &SockAddr) -> (r: Result<usize, i32>)
    ensures
        r is Ok ==> r->Ok_0 <= buf@.len(),
        *addr is UnixAddr ==> r == Err::<usize, i32>(crate::error::ERRNO_EINVAL),
{
    match addr {
        SockAddr::InetAddr(IpAddr::V4(a, b, c, d), port) => sys_sendto_v4(
            fd,
            buf,
            *a,
            *b,
            *c,
            *d,
            *port,
        ),
        SockAddr::InetAddr(IpAddr::V6(g), port) => sys_sendto_v6(fd, buf, *g, *port),
        SockAddr::UnixAddr(_) => Err(crate::error::ERRNO_EINVAL),
    }
}

/// Receives one datagram, handing the sender's address back as plain
/// values when the kernel reports a supported one.
pub(crate) fn sys_recvfrom(fd: i32, buf: &mut [u8]) -> (r: Result<(usize, Option<SockAddr>), i32>)
    ensures
        r is Ok ==> r->Ok_0.0 <= old(buf)@.len() && final(buf)@.len() == old(buf)@.len(),
{
    match sys_recvfrom_raw(fd, buf) {
        Ok((n, Some(ss))) => {
            match storage_to_addr(&ss) {
                Ok(a) => Ok((n, Some(a))),
                Err(_) => Ok((n, None)),
            }
        },
        Ok((n, None)) => Ok((n, None)),
        Err(e) => Err(e),
    }
}

/// Relies on nix's `getsockopt` with `SO_LINGER`: the raw (on/off,
/// duration) pair as the kernel reports it.
#[verifier::external_body]
pub(crate) fn sys_get_linger_raw(fd: i32) -> (r: Result<(i32, i32), i32>) {
    match nsock::getsockopt(fd, sockopt::Linger) {
        Ok(l) => Ok((l.l_onoff as i32, l.l_linger as i32)),
        Err(e) => Err(e as i32),
    }
}

/// Relies on nix's `setsockopt` with `SO_LINGER`, installing the raw
/// (on/off, duration) pair.
#[verifier::external_body]
pub(crate) fn sys_set_linger_raw(fd: i32, onoff: i32, dur: i32) -> (r: Result<(), i32>) {
    let l = nix::libc::linger { l_onoff: onoff, l_linger: dur };
    nsock::setsockopt(fd, sockopt::Linger, &l).map_err(|e| e as i32)
}

/// Relies on nix's `setsockopt` with `SO_REUSEADDR`.
#[verifier::external_body]
pub(crate) fn sys_set_reuseaddr_raw(fd: i32, val: bool) -> (r: Result<(), i32>) {
    nsock::setsockopt(fd, sockopt::ReuseAddr, &val)
        .map_err(|e| e as i32)
}

/// Relies on nix's `setsockopt` with `SO_REUSEPORT`.
#[verifier::external_body]
pub(crate) fn sys_set_reuseport_raw(fd: i32, val: bool) -> (r: Result<(), i32>) {
    nsock::setsockopt(fd, sockopt::ReusePort, &val)
        .map_err(|e| e as i32)
}

/// Relies on nix's `setsockopt` with `SO_BROADCAST`.
#[verifier::external_body]
pub(crate) fn sys_set_broadcast_raw(fd: i32, val: bool) -> (r: Result<(), i32>) {
    nsock::setsockopt(fd, sockopt::Broadcast, &val)
        .map_err(|e| e as i32)
}

/// Relies on nix's `setsockopt` with `IP_MULTICAST_TTL`.
#[verifier::external_body]
pub(crate) fn sys_set_multicast_ttl_raw(fd: i32, val: u8) -> (r: Result<(), i32>) {
    nsock::setsockopt(fd, sockopt::IpMulticastTtl, &val)
        .map_err(|e| e as i32)
}

/// Relies on nix's `setsockopt` with `IP_ADD_MEMBERSHIP`, joining the
/// IPv4 multicast group given by the octets, on the given interface or the
/// unspecified one.
#[verifier::external_body]
pub(crate) fn sys_join_multicast_v4(
    fd: i32,
    a: u8,
    b: u8,
    c: u8,
    d: u8,
    iface: Option<(u8, u8, u8, u8)>,
) -> (r: Result<(), i32>) {
    let req = nsock::IpMembershipRequest::new(
        [a, b, c, d].into(),
        iface.map(|o| [o.0, o.1, o.2, o.3].into()),
    );
    nsock::setsockopt(fd, sockopt::IpAddMembership, &req)
        .map_err(|e| e as i32)
}

/// Relies on nix's `setsockopt` with `IP_DROP_MEMBERSHIP`, leaving the
/// IPv4 multicast group given by the octets.
#[verifier::external_body]
pub(crate) fn sys_leave_multicast_v4(
    fd: i32,
    a: u8,
    b: u8,
    c: u8,
    d: u8,
    iface: Option<(u8, u8, u8, u8)>,
) -> (r: Result<(), i32>) {
    let req = nsock::IpMembershipRequest::new(
        [a, b, c, d].into(),
        iface.map(|o| [o.0, o.1, o.2, o.3].into()),
    );
    nsock::setsockopt(fd, sockopt::IpDropMembership, &req)
        .map_err(|e| e as i32)
}

/// The kernel's generic socket-address storage, declared so that it can
/// pass between the wrappers above; opaque to the verifier.
#[verifier::external_type_specification]
#[verifier::external_body]
pub struct ExSockaddrStorage(nsock::SockaddrStorage);

/// Relies on nix's `SockaddrStorage` accessors, converting a kernel
/// socket-address into the library's plain form, family by family; an
/// address of an unsupported family is reported as `EINVAL`.
#[verifier::external_body]
pub(crate) fn storage_to_addr(ss: &nsock::SockaddrStorage) -> (r: Result<SockAddr, i32>) {
    if let Some(s4) = ss.as_sockaddr_in() {
        let o = s4.ip().to_be_bytes();
        Ok(SockAddr::InetAddr(IpAddr::V4(o[0], o[1], o[2], o[3]), s4.port()))
    } else if let Some(s6) = ss.as_sockaddr_in6() {
        Ok(SockAddr::InetAddr(IpAddr::V6(s6.ip().segments()), s6.port()))
    } else if let Some(ua) = ss.as_unix_addr() {
        Ok(SockAddr::UnixAddr(ua.path().and_then(|p| p.to_str()).unwrap_or("").to_string()))
    } else {
        Err(22)
    }
}

} // verus!
