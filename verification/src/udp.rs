//! Non-blocking UDP primitives.

use vstd::prelude::*;

use crate::error::{MioError, MioResult};
use crate::io::{IoHandle, NonBlock};
use crate::net::{AddressFamily, IpAddr, MulticastSocket, SockAddr, Socket, SocketType,
    UnconnectedSocket};
use crate::os;
use crate::tcp::{read_nonblock, write_nonblock};

verus! {

/// A UDP socket.
#[derive(Debug)]
pub struct UdpSocket {
    desc: i32,
}

impl UdpSocket {
    /// The descriptor held by this socket.
    pub closed spec fn spec_fd(self) -> i32 {
        self.desc
    }

    /// Creates an IPv4 UDP socket.
    pub fn v4() -> (r: MioResult<UdpSocket>)
        ensures
            r is Ok ==> r->Ok_0.spec_fd() >= 0,
    {
        UdpSocket::new(AddressFamily::Inet)
    }

    /// Creates an IPv6 UDP socket.
    pub fn v6() -> (r: MioResult<UdpSocket>)
        ensures
            r is Ok ==> r->Ok_0.spec_fd() >= 0,
    {
        UdpSocket::new(AddressFamily::Inet6)
    }

    /// Creates a UDP socket of the given family.
    fn new(family: AddressFamily) -> (r: MioResult<UdpSocket>)
        ensures
            r is Ok ==> r->Ok_0.spec_fd() >= 0,
    {
        match os::sys_socket(family, SocketType::Dgram) {
            Ok(fd) => Ok(UdpSocket { desc: fd }),
            Err(e) => Err(MioError::from_errno(e)),
        }
    }

    /// Binds the socket to `addr`.
    pub fn bind(&self, addr: &SockAddr) -> (r: MioResult<()>) {
        match os::sys_bind(self.desc, addr) {
            Ok(_) => Ok(()),
            Err(e) => Err(MioError::from_errno(e)),
        }
    }

    /// Connects the socket to `addr`; true when the connection completed
    /// immediately.
    pub fn connect(&self, addr: &SockAddr) -> (r: MioResult<bool>) {
        match os::sys_connect(self.desc, addr) {
            Ok(b) => Ok(b),
            Err(e) => Err(MioError::from_errno(e)),
        }
    }

    /// Creates a UDP socket of `addr`'s family and binds it to `addr`.
    pub fn bound(addr: &SockAddr) -> (r: MioResult<UdpSocket>)
        ensures
            r is Ok ==> r->Ok_0.spec_fd() >= 0,
    {
        let sock = match UdpSocket::new(addr.family()) {
            Ok(s) => s,
            Err(e) => {
                return Err(e);
            },
        };
        match sock.bind(addr) {
            Ok(_) => Ok(sock),
            Err(e) => Err(e),
        }
    }

    /// Allows the socket to send broadcast datagrams.
    pub fn set_broadcast(&self, on: bool) -> (r: MioResult<()>) {
        match os::sys_set_broadcast_raw(self.desc, on) {
            Ok(_) => Ok(()),
            Err(e) => Err(MioError::from_errno(e)),
        }
    }

    /// Reads into the front of `buf`; a would-block condition is reported
    /// in the result, never as an error.
    pub fn read_slice(&self, buf: &mut [u8]) -> (r: MioResult<NonBlock<usize>>)
        ensures
            r is Ok && r->Ok_0 is Ready ==> r->Ok_0->Ready_0 <= old(buf)@.len(),
            r is Err ==> !(r->Err_0 is WouldBlock),
    {
        read_nonblock(self.desc, buf)
    }

    /// Writes from `buf`; a would-block condition is reported in the
    /// result, never as an error.
    pub fn write_slice(&self, buf: &[u8]) -> (r: MioResult<NonBlock<usize>>)
        ensures
            r is Ok && r->Ok_0 is Ready ==> r->Ok_0->Ready_0 <= buf@.len(),
            r is Err ==> !(r->Err_0 is WouldBlock),
    {
        write_nonblock(self.desc, buf)
    }

    /// Closes the socket, releasing its descriptor.
    pub fn close(self) -> (r: MioResult<()>) {
        match os::sys_close(self.desc) {
            Ok(_) => Ok(()),
            Err(e) => Err(MioError::from_errno(e)),
        }
    }
}

impl IoHandle for UdpSocket {
    closed spec fn view_fd(&self) -> i32 {
        self.desc
    }

    fn desc(&self) -> i32 {
        self.desc
    }
}

impl Socket for UdpSocket {
}

impl MulticastSocket for UdpSocket {
}

impl UnconnectedSocket for UdpSocket {
    /// Sends `buf` to `tgt`; reports how many bytes left, or that the
    /// operation would block.
    fn send_to(&mut self, buf: &[u8], tgt: &SockAddr) -> (r: MioResult<NonBlock<usize>>) {
        match os::sys_sendto(self.desc, buf, tgt) {
            Ok(n) => Ok(NonBlock::Ready(n)),
            Err(e) => {
                let err = MioError::from_errno(e);
                if err.is_would_block() {
                    Ok(NonBlock::WouldBlock)
                } else {
                    Err(err)
                }
            },
        }
    }

    /// Receives one datagram into `buf`; reports how many bytes arrived
    /// and from where (the unspecified address when the kernel reports
    /// none), or that the operation would block.
    fn recv_from(&mut self, buf: &mut [u8]) -> (r: MioResult<NonBlock<(usize, SockAddr)>>) {
        match os::sys_recvfrom(self.desc, buf) {
            Ok((n, Some(addr))) => Ok(NonBlock::Ready((n, addr))),
            Ok((n, None)) => Ok(NonBlock::Ready((n, SockAddr::InetAddr(IpAddr::V4(0, 0, 0, 0), 0)))),
            Err(e) => {
                let err = MioError::from_errno(e);
                if err.is_would_block() {
                    Ok(NonBlock::WouldBlock)
                } else {
                    Err(err)
                }
            },
        }
    }
}

} // verus!
