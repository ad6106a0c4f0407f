//! Non-blocking TCP primitives.

use vstd::prelude::*;

use crate::error::{MioError, MioResult};
use crate::io::{IoHandle, NonBlock};
use crate::net::{AddressFamily, SockAddr, Socket, SocketType};
use crate::os;

verus! {

/// A TCP socket that is not yet bound, connected or listening.
#[derive(Debug)]
pub struct TcpSocket {
    desc: i32,
}

/// A bound TCP socket, ready to listen.
#[derive(Debug)]
pub struct TcpListener {
    desc: i32,
}

/// A listening TCP socket, accepting connections.
#[derive(Debug)]
pub struct TcpAcceptor {
    desc: i32,
}

impl TcpSocket {
    /// The descriptor held by this socket.
    pub closed spec fn spec_fd(self) -> i32 {
        self.desc
    }

    /// Creates an IPv4 TCP socket.
    pub fn v4() -> (r: MioResult<TcpSocket>)
        ensures
            r is Ok ==> r->Ok_0.spec_fd() >= 0,
    {
        TcpSocket::new(AddressFamily::Inet)
    }

    /// Creates an IPv6 TCP socket.
    pub fn v6() -> (r: MioResult<TcpSocket>)
        ensures
            r is Ok ==> r->Ok_0.spec_fd() >= 0,
    {
        TcpSocket::new(AddressFamily::Inet6)
    }

    /// Creates a TCP socket of the given family.
    fn new(family: AddressFamily) -> (r: MioResult<TcpSocket>)
        ensures
            r is Ok ==> r->Ok_0.spec_fd() >= 0,
    {
        match os::sys_socket(family, SocketType::Stream) {
            Ok(fd) => Ok(TcpSocket { desc: fd }),
            Err(e) => Err(MioError::from_errno(e)),
        }
    }

    /// Starts connecting the socket to `addr`. The connection may complete
    /// later; the event loop reports writability when it does.
    pub fn connect(&self, addr: &SockAddr) -> (r: MioResult<()>) {
        match os::sys_connect(self.desc, addr) {
            Ok(_) => Ok(()),
            Err(e) => Err(MioError::from_errno(e)),
        }
    }

    /// Binds the socket to `addr`, turning it into a listener-to-be.
    pub fn bind(self, addr: &SockAddr) -> (r: MioResult<TcpListener>)
        ensures
            r is Ok ==> r->Ok_0.spec_fd() == self.spec_fd(),
    {
        match os::sys_bind(self.desc, addr) {
            Ok(_) => Ok(TcpListener { desc: self.desc }),
            Err(e) => Err(MioError::from_errno(e)),
        }
    }

    /// The address of the peer this socket is connected to.
    pub fn getpeername(&self) -> (r: MioResult<SockAddr>) {
        match os::sys_getpeername(self.desc) {
            Ok(a) => Ok(a),
            Err(e) => Err(MioError::from_errno(e)),
        }
    }

    /// The local address this socket is bound to.
    pub fn getsockname(&self) -> (r: MioResult<SockAddr>) {
        match os::sys_getsockname(self.desc) {
            Ok(a) => Ok(a),
            Err(e) => Err(MioError::from_errno(e)),
        }
    }

    /// Reads into the front of `buf`; a would-block condition is reported
    /// in the result, never as an error.
    pub fn read_slice(&self, buf: &mut [u8]) -> (r: MioResult<NonBlock<usize>>)
        ensures
            r is Ok && r->Ok_0 is Ready ==> r->Ok_0->Ready_0 <= old(buf)@.len(),
            r is Err ==> !(r->Err_0 is WouldBlock),
    {
        read_nonblock(self.desc, buf)
    }

    /// Writes from `buf`; a would-block condition is reported in the
    /// result, never as an error.
    pub fn write_slice(&self, buf: &[u8]) -> (r: MioResult<NonBlock<usize>>)
        ensures
            r is Ok && r->Ok_0 is Ready ==> r->Ok_0->Ready_0 <= buf@.len(),
            r is Err ==> !(r->Err_0 is WouldBlock),
    {
        write_nonblock(self.desc, buf)
    }

    /// Closes the socket, releasing its descriptor.
    pub fn close(self) -> (r: MioResult<()>) {
        match os::sys_close(self.desc) {
            Ok(_) => Ok(()),
            Err(e) => Err(MioError::from_errno(e)),
        }
    }
}

impl IoHandle for TcpSocket {
    closed spec fn view_fd(&self) -> i32 {
        self.desc
    }

    fn desc(&self) -> i32 {
        self.desc
    }
}

impl Socket for TcpSocket {
}

impl TcpListener {
    /// The descriptor held by this listener.
    pub closed spec fn spec_fd(self) -> i32 {
        self.desc
    }

    /// Starts listening with the given backlog, turning the bound socket
    /// into an acceptor.
    pub fn listen(self, backlog: usize) -> (r: MioResult<TcpAcceptor>)
        ensures
            r is Ok ==> r->Ok_0.spec_fd() == self.spec_fd(),
    {
        match os::sys_listen(self.desc, backlog) {
            Ok(_) => Ok(TcpAcceptor { desc: self.desc }),
            Err(e) => Err(MioError::from_errno(e)),
        }
    }
}

impl IoHandle for TcpListener {
    closed spec fn view_fd(&self) -> i32 {
        self.desc
    }

    fn desc(&self) -> i32 {
        self.desc
    }
}

impl TcpAcceptor {
    /// The descriptor held by this acceptor.
    pub closed spec fn spec_fd(self) -> i32 {
        self.desc
    }

    /// Creates a socket for `addr`'s family, binds it, and listens.
    pub fn new(addr: &SockAddr, backlog: usize) -> (r: MioResult<TcpAcceptor>)
        ensures
            r is Ok ==> r->Ok_0.spec_fd() >= 0,
    {
        let sock = match TcpSocket::new(addr.family()) {
            Ok(s) => s,
            Err(e) => {
                return Err(e);
            },
        };
        let listener = match sock.bind(addr) {
            Ok(l) => l,
            Err(e) => {
                return Err(e);
            },
        };
        listener.listen(backlog)
    }

    /// Accepts one pending connection; a would-block condition is reported
    /// in the result, never as an error.
    pub fn accept(&mut self) -> (r: MioResult<NonBlock<TcpSocket>>)
        ensures
            final(self).spec_fd() == old(self).spec_fd(),
            r is Ok && r->Ok_0 is Ready ==> r->Ok_0->Ready_0.spec_fd() >= 0,
            r is Err ==> !(r->Err_0 is WouldBlock),
    {
        match os::sys_accept(self.desc) {
            Ok(fd) => Ok(NonBlock::Ready(TcpSocket { desc: fd })),
            Err(e) => {
                let err = MioError::from_errno(e);
                if err.is_would_block() {
                    Ok(NonBlock::WouldBlock)
                } else {
                    Err(err)
                }
            },
        }
    }
}

impl IoHandle for TcpAcceptor {
    closed spec fn view_fd(&self) -> i32 {
        self.desc
    }

    fn desc(&self) -> i32 {
        self.desc
    }
}

impl Socket for TcpAcceptor {
}

/// Reads into the front of `buf`, turning a would-block errno into the
/// would-block outcome.
pub(crate) fn read_nonblock(fd: i32, buf: &mut [u8]) -> (r: MioResult<NonBlock<usize>>)
    ensures
        r is Ok && r->Ok_0 is Ready ==> r->Ok_0->Ready_0 <= old(buf)@.len(),
        r is Err ==> !(r->Err_0 is WouldBlock),
{
    match os::sys_read(fd, buf) {
        Ok(n) => Ok(NonBlock::Ready(n)),
        Err(e) => {
            let err = MioError::from_errno(e);
            if err.is_would_block() {
                Ok(NonBlock::WouldBlock)
            } else {
                Err(err)
            }
        },
    }
}

/// Writes from `buf`, turning a would-block errno into the would-block
/// outcome.
pub(crate) fn write_nonblock(fd: i32, buf: &[u8]) -> (r: MioResult<NonBlock<usize>>)
    ensures
        r is Ok && r->Ok_0 is Ready ==> r->Ok_0->Ready_0 <= buf@.len(),
        r is Err ==> !(r->Err_0 is WouldBlock),
{
    match os::sys_write(fd, buf) {
        Ok(n) => Ok(NonBlock::Ready(n)),
        Err(e) => {
            let err = MioError::from_errno(e);
            if err.is_would_block() {
                Ok(NonBlock::WouldBlock)
            } else {
                Err(err)
            }
        },
    }
}

} // verus!
