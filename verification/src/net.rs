//! Networking primitives: address model and socket traits.
//!
//! Addresses are held as plain values — an IPv4 address as its four octets,
//! an IPv6 address as its eight groups, a Unix address as its path — so that
//! the logic over them is verified; only the system boundary converts them
//! to the kernel's wire form.

use vstd::prelude::*;
use vstd::string::{StrSliceExecFns, StringSliceAdditionalSpecFns};

use crate::error::{MioError, MioResult};
use crate::io::IoHandle;
use crate::os;
use crate::parse::{format_v4_bytes, format_v6_bytes, parse_v4_bytes, parse_v6_bytes,
    spec_parse_v4, spec_parse_v6, spec_v4_repr, spec_v6_repr};

verus! {

/// A transport port number.
pub type Port = u16;

/// An IP address, version 4 (four octets) or version 6 (eight groups).
#[derive(Clone, Copy, Debug, PartialEq, Eq)]
pub enum IpAddr {
    /// Four octets, most significant first.
    V4(u8, u8, u8, u8),
    /// Eight 16-bit groups, most significant first.
    V6([u16; 8]),
}

/// The address family of a socket.
#[derive(Clone, Copy, Debug, PartialEq, Eq, Structural)]
pub enum AddressFamily {
    /// IPv4.
    Inet,
    /// IPv6.
    Inet6,
    /// Unix domain.
    Unix,
}

/// The type of a socket.
#[derive(Clone, Copy, Debug, PartialEq, Eq, Structural)]
pub enum SocketType {
    /// Datagram.
    Dgram,
    /// Byte stream.
    Stream,
}

/// An internet socket address held as a plain (ip, port) pair, the shape in
/// which addresses travel to and from the platform layer.
#[derive(Clone, Copy, Debug, PartialEq, Eq)]
pub struct InetSocketAddr {
    /// The IP address.
    pub ip: IpAddr,
    /// The port number.
    pub port: Port,
}

/// The error returned when a string is no socket address.
#[derive(Clone, Copy, Debug, PartialEq, Eq, Structural)]
pub struct AddrParseError;

/// A socket address: a Unix-domain path or an internet (ip, port) pair.
#[derive(Clone, Debug, PartialEq, Eq)]
pub enum SockAddr {
    /// A Unix-domain address, named by a filesystem path.
    UnixAddr(String),
    /// An internet address.
    InetAddr(IpAddr, Port),
}

impl SockAddr {
    /// Parses a socket-address string into an internet address, exactly as
    /// [`spec_parse_v4`] and [`spec_parse_v6`] read the string's bytes: the
    /// dotted-quad form `a.b.c.d:p` (decimal, leading zeros allowed), or
    /// the bracketed version-6 form `[groups]:p` (hexadecimal groups,
    /// one `::` standing for omitted zero groups).
    pub fn parse(s: &str) -> (r: Result<SockAddr, AddrParseError>)
        ensures
            (match spec_parse_v4(s.spec_bytes()) {
                Some(t) => r == Ok::<SockAddr, AddrParseError>(
                    SockAddr::InetAddr(IpAddr::V4(t.0, t.1, t.2, t.3), t.4),
                ),
                None => (match spec_parse_v6(s.spec_bytes()) {
                    Some(t) => r is Ok && (match r->Ok_0 {
                        SockAddr::InetAddr(IpAddr::V6(g), p) => g@ == t.0 && p == t.1,
                        _ => false,
                    }),
                    None => r == Err::<SockAddr, AddrParseError>(AddrParseError),
                }),
            }),
    {
        let bytes = s.as_bytes_vec();
        match parse_v4_bytes(&bytes) {
            Some((a, b, c, d, p)) => Ok(SockAddr::InetAddr(IpAddr::V4(a, b, c, d), p)),
            None => {
                match parse_v6_bytes(&bytes) {
                    Some((g, p)) => Ok(SockAddr::InetAddr(IpAddr::V6(g), p)),
                    None => Err(AddrParseError),
                }
            },
        }
    }
    /// Renders an internet address in the canonical form that
    /// [`SockAddr::parse`] accepts — the dotted-quad form for version 4,
    /// the bracketed full-groups form for version 6; a Unix-domain address
    /// has no such rendering.
    pub fn display_bytes(&self) -> (r: Option<Vec<u8>>)
        ensures
            (match *self {
                SockAddr::InetAddr(IpAddr::V4(a, b, c, d), p) => r is Some && r->Some_0@
                    == spec_v4_repr(a, b, c, d, p),
                SockAddr::InetAddr(IpAddr::V6(g), p) => r is Some && r->Some_0@ == spec_v6_repr(
                    g@,
                    p,
                ),
                SockAddr::UnixAddr(_) => r is None,
            }),
    {
        match self {
            SockAddr::InetAddr(IpAddr::V4(a, b, c, d), p) => Some(
                format_v4_bytes(*a, *b, *c, *d, *p),
            ),
            SockAddr::InetAddr(IpAddr::V6(g), p) => Some(format_v6_bytes(g, *p)),
            SockAddr::UnixAddr(_) => None,
        }
    }

    /// The address family this address belongs to.
    pub fn family(&self) -> (r: AddressFamily)
        ensures
            r == (match *self {
                SockAddr::UnixAddr(_) => AddressFamily::Unix,
                SockAddr::InetAddr(IpAddr::V4(..), _) => AddressFamily::Inet,
                SockAddr::InetAddr(IpAddr::V6(..), _) => AddressFamily::Inet6,
            }),
    {
        match *self {
            SockAddr::UnixAddr(_) => AddressFamily::Unix,
            SockAddr::InetAddr(IpAddr::V4(..), _) => AddressFamily::Inet,
            SockAddr::InetAddr(IpAddr::V6(..), _) => AddressFamily::Inet6,
        }
    }

    /// Wraps a filesystem path as a Unix-domain address.
    pub fn from_path(p: String) -> (r: SockAddr)
        ensures
            r == SockAddr::UnixAddr(p),
    {
        SockAddr::UnixAddr(p)
    }

    /// Converts a plain (ip, port) pair into an address, consuming it.
    pub fn consume_std(addr: InetSocketAddr) -> (r: SockAddr)
        ensures
            r == SockAddr::InetAddr(addr.ip, addr.port),
    {
        SockAddr::InetAddr(addr.ip, addr.port)
    }

    /// Converts a plain (ip, port) pair into an address.
    pub fn from_std(addr: &InetSocketAddr) -> (r: SockAddr)
        ensures
            r == SockAddr::InetAddr(addr.ip, addr.port),
    {
        SockAddr::InetAddr(addr.ip, addr.port)
    }

    /// The plain (ip, port) form of an internet address; `None` for a
    /// Unix-domain address.
    pub fn to_std(&self) -> (r: Option<InetSocketAddr>)
        ensures
            r == (match *self {
                SockAddr::InetAddr(ip, port) => Some(InetSocketAddr { ip, port }),
                SockAddr::UnixAddr(_) => None::<InetSocketAddr>,
            }),
    {
        match *self {
            SockAddr::InetAddr(ip, port) => Some(InetSocketAddr { ip, port }),
            SockAddr::UnixAddr(_) => None,
        }
    }

    /// The plain (ip, port) form of an internet address, consuming the
    /// address; `None` for a Unix-domain address.
    pub fn into_std(self) -> (r: Option<InetSocketAddr>)
        ensures
            r == (match self {
                SockAddr::InetAddr(ip, port) => Some(InetSocketAddr { ip, port }),
                SockAddr::UnixAddr(_) => None::<InetSocketAddr>,
            }),
    {
        match self {
            SockAddr::InetAddr(ip, port) => Some(InetSocketAddr { ip, port }),
            SockAddr::UnixAddr(_) => None,
        }
    }
}

/// Socket-level options shared by every socket type.
pub trait Socket: IoHandle {
    /// Reads the linger duration, in seconds; zero when linger is off.
    fn linger(&self) -> MioResult<usize> {
        match os::sys_get_linger_raw(self.desc()) {
            Ok((onoff, dur)) => Ok(
                if onoff > 0 && dur > 0 {
                    dur as usize
                } else {
                    0
                },
            ),
            Err(e) => Err(MioError::from_errno(e)),
        }
    }

    /// Sets the linger duration, in seconds; zero switches linger off.
    fn set_linger(&self, dur_s: usize) -> MioResult<()> {
        let onoff: i32 = if dur_s > 0 {
            1
        } else {
            0
        };
        let dur: i32 = if dur_s > 0x7fff_ffff {
            0x7fff_ffff
        } else {
            dur_s as i32
        };
        match os::sys_set_linger_raw(self.desc(), onoff, dur) {
            Ok(_) => Ok(()),
            Err(e) => Err(MioError::from_errno(e)),
        }
    }

    /// Allows reuse of local addresses in `bind`.
    fn set_reuseaddr(&self, val: bool) -> MioResult<()> {
        match os::sys_set_reuseaddr_raw(self.desc(), val) {
            Ok(_) => Ok(()),
            Err(e) => Err(MioError::from_errno(e)),
        }
    }

    /// Allows multiple sockets to bind the same port.
    fn set_reuseport(&self, val: bool) -> MioResult<()> {
        match os::sys_set_reuseport_raw(self.desc(), val) {
            Ok(_) => Ok(()),
            Err(e) => Err(MioError::from_errno(e)),
        }
    }
}

/// Multicast controls for datagram sockets.
pub trait MulticastSocket: Socket {
    /// Joins the IPv4 multicast group `addr`, optionally on a specific
    /// interface. Only version-4 groups are supported.
    fn join_multicast_group(&self, addr: &IpAddr, interface: &Option<IpAddr>) -> MioResult<()> {
        match *addr {
            IpAddr::V4(a, b, c, d) => {
                let iface = interface_octets(interface);
                match os::sys_join_multicast_v4(self.desc(), a, b, c, d, iface) {
                    Ok(_) => Ok(()),
                    Err(e) => Err(MioError::from_errno(e)),
                }
            },
            IpAddr::V6(..) => Err(MioError::InvalidArgument),
        }
    }

    /// Leaves the IPv4 multicast group `addr`.
    fn leave_multicast_group(&self, addr: &IpAddr, interface: &Option<IpAddr>) -> MioResult<()> {
        match *addr {
            IpAddr::V4(a, b, c, d) => {
                let iface = interface_octets(interface);
                match os::sys_leave_multicast_v4(self.desc(), a, b, c, d, iface) {
                    Ok(_) => Ok(()),
                    Err(e) => Err(MioError::from_errno(e)),
                }
            },
            IpAddr::V6(..) => Err(MioError::InvalidArgument),
        }
    }

    /// Sets the time-to-live of outgoing multicast packets.
    fn set_multicast_ttl(&self, val: u8) -> MioResult<()> {
        match os::sys_set_multicast_ttl_raw(self.desc(), val) {
            Ok(_) => Ok(()),
            Err(e) => Err(MioError::from_errno(e)),
        }
    }
}

/// A datagram socket that addresses each message individually.
pub trait UnconnectedSocket {
    /// Sends `buf` to `tgt`; reports how many bytes left, or that the
    /// operation would block.
    fn send_to(&mut self, buf: &[u8], tgt: &SockAddr) -> (r: MioResult<
        crate::io::NonBlock<usize>,
    >)
        ensures
            r is Ok && r->Ok_0 is Ready ==> r->Ok_0->Ready_0 <= buf@.len(),
            r is Err ==> !(r->Err_0 is WouldBlock),
            *tgt is UnixAddr ==> r == Err::<crate::io::NonBlock<usize>, MioError>(
                MioError::InvalidArgument,
            ),
    ;

    /// Receives one message into `buf`; reports how many bytes arrived and
    /// from where, or that the operation would block.
    fn recv_from(&mut self, buf: &mut [u8]) -> (r: MioResult<
        crate::io::NonBlock<(usize, SockAddr)>,
    >)
        ensures
            r is Ok && r->Ok_0 is Ready ==> r->Ok_0->Ready_0.0 <= old(buf)@.len() && final(buf)@.len() == old(buf)@.len(),
            r is Err ==> !(r->Err_0 is WouldBlock),
    ;
}

/// The interface octets for an optional IPv4 interface address: the
/// unspecified interface when absent or not version 4.
fn interface_octets(interface: &Option<IpAddr>) -> (r: Option<(u8, u8, u8, u8)>)
    ensures
        r == (match *interface {
            Some(IpAddr::V4(a, b, c, d)) => Some((a, b, c, d)),
            _ => None::<(u8, u8, u8, u8)>,
        }),
{
    match *interface {
        Some(IpAddr::V4(a, b, c, d)) => Some((a, b, c, d)),
        _ => None,
    }
}

} // verus!
