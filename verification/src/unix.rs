//! Non-blocking Unix-domain stream primitives.

use vstd::prelude::*;

use crate::error::{MioError, MioResult};
use crate::io::{IoHandle, NonBlock};
use crate::net::{AddressFamily, SockAddr, Socket, SocketType};
use crate::os;
use crate::tcp::{read_nonblock, write_nonblock};

verus! {

/// A Unix-domain socket that is not yet bound or connected.
#[derive(Debug)]
pub struct UnixSocket {
    desc: i32,
}

/// A bound Unix-domain socket, ready to listen.
#[derive(Debug)]
pub struct UnixListener {
    desc: i32,
}

/// A listening Unix-domain socket, accepting connections.
#[derive(Debug)]
pub struct UnixAcceptor {
    desc: i32,
}

impl UnixSocket {
    /// The descriptor held by this socket.
    pub closed spec fn spec_fd(self) -> i32 {
        self.desc
    }

    /// Creates a Unix-domain stream socket.
    pub fn stream() -> (r: MioResult<UnixSocket>)
        ensures
            r is Ok ==> r->Ok_0.spec_fd() >= 0,
    {
        UnixSocket::new(SocketType::Stream)
    }

    /// Creates a Unix-domain socket of the given type.
    fn new(socket_type: SocketType) -> (r: MioResult<UnixSocket>)
        ensures
            r is Ok ==> r->Ok_0.spec_fd() >= 0,
    {
        match os::sys_socket(AddressFamily::Unix, socket_type) {
            Ok(fd) => Ok(UnixSocket { desc: fd }),
            Err(e) => Err(MioError::from_errno(e)),
        }
    }

    /// Starts connecting the socket to `addr`. The connection may complete
    /// later; the event loop reports writability when it does.
    pub fn connect(&self, addr: &SockAddr) -> (r: MioResult<()>) {
        match os::sys_connect(self.desc, addr) {
            Ok(_) => Ok(()),
            Err(e) => Err(MioError::from_errno(e)),
        }
    }

    /// Binds the socket to `addr`, turning it into a listener-to-be.
    pub fn bind(self, addr: &SockAddr) -> (r: MioResult<UnixListener>)
        ensures
            r is Ok ==> r->Ok_0.spec_fd() == self.spec_fd(),
    {
        match os::sys_bind(self.desc, addr) {
            Ok(_) => Ok(UnixListener { desc: self.desc }),
            Err(e) => Err(MioError::from_errno(e)),
        }
    }

    /// Reads into the front of `buf`; a would-block condition is reported
    /// in the result, never as an error.
    pub fn read_slice(&self, buf: &mut [u8]) -> (r: MioResult<NonBlock<usize>>)
        ensures
            r is Ok && r->Ok_0 is Ready ==> r->Ok_0->Ready_0 <= old(buf)@.len(),
            r is Err ==> !(r->Err_0 is WouldBlock),
    {
        read_nonblock(self.desc, buf)
    }

    /// Writes from `buf`; a would-block condition is reported in the
    /// result, never as an error.
    pub fn write_slice(&self, buf: &[u8]) -> (r: MioResult<NonBlock<usize>>)
        ensures
            r is Ok && r->Ok_0 is Ready ==> r->Ok_0->Ready_0 <= buf@.len(),
            r is Err ==> !(r->Err_0 is WouldBlock),
    {
        write_nonblock(self.desc, buf)
    }

    /// Closes the socket, releasing its descriptor.
    pub fn close(self) -> (r: MioResult<()>) {
        match os::sys_close(self.desc) {
            Ok(_) => Ok(()),
            Err(e) => Err(MioError::from_errno(e)),
        }
    }
}

impl IoHandle for UnixSocket {
    closed spec fn view_fd(&self) -> i32 {
        self.desc
    }

    fn desc(&self) -> i32 {
        self.desc
    }
}

impl Socket for UnixSocket {
}

impl UnixListener {
    /// The descriptor held by this listener.
    pub closed spec fn spec_fd(self) -> i32 {
        self.desc
    }

    /// Starts listening with the given backlog, turning the bound socket
    /// into an acceptor.
    pub fn listen(self, backlog: usize) -> (r: MioResult<UnixAcceptor>)
        ensures
            r is Ok ==> r->Ok_0.spec_fd() == self.spec_fd(),
    {
        match os::sys_listen(self.desc, backlog) {
            Ok(_) => Ok(UnixAcceptor { desc: self.desc }),
            Err(e) => Err(MioError::from_errno(e)),
        }
    }
}

impl IoHandle for UnixListener {
    closed spec fn view_fd(&self) -> i32 {
        self.desc
    }

    fn desc(&self) -> i32 {
        self.desc
    }
}

impl UnixAcceptor {
    /// The descriptor held by this acceptor.
    pub closed spec fn spec_fd(self) -> i32 {
        self.desc
    }

    /// Creates a stream socket, binds it to `addr`, and listens.
    pub fn new(addr: &SockAddr, backlog: usize) -> (r: MioResult<UnixAcceptor>)
        ensures
            r is Ok ==> r->Ok_0.spec_fd() >= 0,
    {
        let sock = match UnixSocket::stream() {
            Ok(s) => s,
            Err(e) => {
                return Err(e);
            },
        };
        let listener = match sock.bind(addr) {
            Ok(l) => l,
            Err(e) => {
                return Err(e);
            },
        };
        listener.listen(backlog)
    }

    /// Accepts one pending connection; a would-block condition is reported
    /// in the result, never as an error.
    pub fn accept(&mut self) -> (r: MioResult<NonBlock<UnixSocket>>)
        ensures
            final(self).spec_fd() == old(self).spec_fd(),
            r is Ok && r->Ok_0 is Ready ==> r->Ok_0->Ready_0.spec_fd() >= 0,
            r is Err ==> !(r->Err_0 is WouldBlock),
    {
        match os::sys_accept(self.desc) {
            Ok(fd) => Ok(NonBlock::Ready(UnixSocket { desc: fd })),
            Err(e) => {
                let err = MioError::from_errno(e);
                if err.is_would_block() {
                    Ok(NonBlock::WouldBlock)
                } else {
                    Err(err)
                }
            },
        }
    }
}

impl IoHandle for UnixAcceptor {
    closed spec fn view_fd(&self) -> i32 {
        self.desc
    }

    fn desc(&self) -> i32 {
        self.desc
    }
}

impl Socket for UnixAcceptor {
}

} // verus!
