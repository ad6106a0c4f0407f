//! End-to-end tests for the socket types over the loopback interface and
//! the filesystem namespace.

use mio::error::MioError;
use mio::event::{Interest, PollOpt};
use mio::io::{IoHandle, NonBlock};
use mio::net::{IpAddr, MulticastSocket, SockAddr, Socket, UnconnectedSocket};
use mio::poll::{Events, Selector};
use mio::tcp::TcpSocket;
use mio::udp::UdpSocket;
use mio::unix::{UnixAcceptor, UnixSocket};

fn loopback(port: u16) -> SockAddr {
    SockAddr::InetAddr(IpAddr::V4(127, 0, 0, 1), port)
}

fn bound_port(addr: &SockAddr) -> u16 {
    match addr {
        SockAddr::InetAddr(_, port) => *port,
        SockAddr::UnixAddr(_) => panic!("expected an internet address"),
    }
}

#[test]
fn tcp_accept_would_block_when_quiet() {
    let sock = TcpSocket::v4().unwrap();
    let listener = sock.bind(&loopback(0)).unwrap();
    let mut acceptor = listener.listen(8).unwrap();
    match acceptor.accept().unwrap() {
        NonBlock::WouldBlock => {}
        NonBlock::Ready(_) => panic!("no connection was pending"),
    }
}

#[test]
fn tcp_bind_listen_and_addresses() {
    let sock = TcpSocket::v4().unwrap();

    // An unbound socket reports the unspecified address and no peer.
    match sock.getsockname().unwrap() {
        SockAddr::InetAddr(IpAddr::V4(0, 0, 0, 0), 0) => {}
        other => panic!("unexpected unbound address: {:?}", other),
    }
    assert!(matches!(sock.getpeername(), Err(MioError::Io(_))));

    // Binding to an ephemeral loopback port assigns a concrete one.
    let listener = sock.bind(&loopback(0)).unwrap();
    let acceptor = listener.listen(8).unwrap();
    let addr = fd_sockname(acceptor.desc());
    assert!(bound_port(&addr) != 0);
    match addr {
        SockAddr::InetAddr(IpAddr::V4(127, 0, 0, 1), _) => {}
        other => panic!("unexpected bound address: {:?}", other),
    }

    let v6 = TcpSocket::v6().unwrap();
    drop(v6);
}

#[test]
fn tcp_socket_options() {
    let sock = TcpSocket::v4().unwrap();
    sock.set_reuseaddr(true).unwrap();
    sock.set_reuseport(true).unwrap();
    assert_eq!(sock.linger().unwrap(), 0);
    sock.set_linger(5).unwrap();
    assert_eq!(sock.linger().unwrap(), 5);
    sock.set_linger(0).unwrap();
    assert_eq!(sock.linger().unwrap(), 0);
    sock.close().unwrap();
}

#[test]
fn udp_receive_would_block_when_quiet() {
    let mut receiver = UdpSocket::bound(&loopback(0)).unwrap();
    let recv_addr = udp_getsockname(&receiver);
    let port = bound_port(&recv_addr);
    assert!(port != 0);

    // No datagram is pending: the non-blocking receive reports would-block
    // in the result, never as an error.
    let mut buf = [0u8; 16];
    match receiver.recv_from(&mut buf).unwrap() {
        NonBlock::WouldBlock => {}
        NonBlock::Ready(_) => panic!("no datagram was pending"),
    }
}

#[test]
fn udp_send_to_unix_target_is_invalid() {
    let mut sender = UdpSocket::v4().unwrap();
    let target = SockAddr::from_path(String::from("/tmp/nowhere.sock"));
    assert!(matches!(
        sender.send_to(b"hello", &target),
        Err(MioError::InvalidArgument)
    ));
}

#[test]
fn udp_broadcast_option() {
    let sock = UdpSocket::v4().unwrap();
    sock.set_broadcast(true).unwrap();
    sock.close().unwrap();
}

#[test]
fn multicast_v6_group_is_refused() {
    let sock = UdpSocket::v4().unwrap();
    // Only version-4 groups are supported; a version-6 group is refused
    // before any kernel entry.
    let v6group = IpAddr::V6([0xff02, 0, 0, 0, 0, 0, 0, 0xfb]);
    assert!(matches!(sock.join_multicast_group(&v6group, &None), Err(MioError::InvalidArgument)));
    assert!(matches!(sock.leave_multicast_group(&v6group, &None), Err(MioError::InvalidArgument)));
}

#[test]
fn unix_stream_roundtrip() {
    let path = format!("/tmp/mio_unix_test_{}.sock", nix::unistd::getpid());
    let _ = nix::unistd::unlink(path.as_str());
    let addr = SockAddr::from_path(path.clone());

    let mut acceptor = UnixAcceptor::new(&addr, 8).unwrap();
    let client = UnixSocket::stream().unwrap();
    client.connect(&addr).unwrap();

    let mut sel = Selector::new().unwrap();
    sel.register(client.desc(), 1, Interest::writable(), PollOpt::level()).unwrap();
    let mut evts = Events::new();
    sel.select(&mut evts, 2000).unwrap();
    assert_eq!(evts.len(), 1);

    let served = match acceptor.accept().unwrap() {
        NonBlock::Ready(s) => s,
        NonBlock::WouldBlock => panic!("a connection was pending"),
    };
    match client.write_slice(b"hi").unwrap() {
        NonBlock::Ready(n) => assert_eq!(n, 2),
        NonBlock::WouldBlock => panic!("fresh connection is writable"),
    }
    sel.register(served.desc(), 2, Interest::readable(), PollOpt::level()).unwrap();
    sel.select(&mut evts, 2000).unwrap();
    let mut buf = [0u8; 8];
    match served.read_slice(&mut buf).unwrap() {
        NonBlock::Ready(n) => {
            assert_eq!(n, 2);
            assert_eq!(&buf[..2], b"hi");
        }
        NonBlock::WouldBlock => panic!("data was pending"),
    }
    let _ = nix::unistd::unlink(path.as_str());
}

fn udp_getsockname(receiver: &UdpSocket) -> SockAddr {
    fd_sockname(receiver.desc())
}

fn fd_sockname(fd: i32) -> SockAddr {
    // Bind reports no address directly; read it from the descriptor.
    let probe = nix::sys::socket::getsockname::<nix::sys::socket::SockaddrStorage>(fd).unwrap();
    let sin = probe.as_sockaddr_in().unwrap();
    let o = sin.ip().to_be_bytes();
    SockAddr::InetAddr(IpAddr::V4(o[0], o[1], o[2], o[3]), sin.port())
}
