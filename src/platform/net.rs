//! Sockets: the platform has no network stack for user programs yet, so
//! every socket operation reports "unsupported".
use vstd::prelude::*;
use crate::platform::io_error::{IoError, IoResult, unsupported, unsupported_error};
use crate::platform::time::Duration;

verus! {

#[derive(Clone, Copy, Debug)]
pub struct Ipv4Addr {
    pub octets: [u8; 4],
}

#[derive(Clone, Copy, Debug)]
pub struct Ipv6Addr {
    pub segments: [u16; 8],
}

#[derive(Clone, Copy, Debug)]
pub enum IpAddr {
    V4(Ipv4Addr),
    V6(Ipv6Addr),
}

#[derive(Clone, Copy, Debug)]
pub struct SocketAddr {
    pub ip: IpAddr,
    pub port: u16,
}

#[derive(Clone, Copy, Debug, PartialEq, Eq, Structural)]
pub enum Shutdown {
    Read,
    Write,
    Both,
}

#[derive(Debug)]
pub struct TcpStream;

impl TcpStream {
    /// Sockets are not supported: always the "unsupported" error.
    pub fn connect(addr: &SocketAddr) -> (r: IoResult<TcpStream>)
        ensures
            r == Err::<TcpStream, IoError>(unsupported_error()),
    {
        unsupported()
    }

    /// Sockets are not supported: always the "unsupported" error.
    pub fn connect_timeout(addr: &SocketAddr, timeout: Duration) -> (r: IoResult<TcpStream>)
        ensures
            r == Err::<TcpStream, IoError>(unsupported_error()),
    {
        unsupported()
    }

    /// Sockets are not supported: always the "unsupported" error.
    pub fn set_read_timeout(&self, dur: Option<Duration>) -> (r: IoResult<()>)
        ensures
            r == Err::<(), IoError>(unsupported_error()),
    {
        unsupported()
    }

    /// Sockets are not supported: always the "unsupported" error.
    pub fn set_write_timeout(&self, dur: Option<Duration>) -> (r: IoResult<()>)
        ensures
            r == Err::<(), IoError>(unsupported_error()),
    {
        unsupported()
    }

    /// Sockets are not supported: always the "unsupported" error.
    pub fn read_timeout(&self) -> (r: IoResult<Option<Duration>>)
        ensures
            r == Err::<Option<Duration>, IoError>(unsupported_error()),
    {
        unsupported()
    }

    /// Sockets are not supported: always the "unsupported" error.
    pub fn write_timeout(&self) -> (r: IoResult<Option<Duration>>)
        ensures
            r == Err::<Option<Duration>, IoError>(unsupported_error()),
    {
        unsupported()
    }

    /// Sockets are not supported: always the "unsupported" error.
    pub fn peek(&self, buf: &mut [u8]) -> (r: IoResult<usize>)
        ensures
            r == Err::<usize, IoError>(unsupported_error()),
    {
        unsupported()
    }

    /// Sockets are not supported: always the "unsupported" error.
    pub fn read(&self, buf: &mut [u8]) -> (r: IoResult<usize>)
        ensures
            r == Err::<usize, IoError>(unsupported_error()),
    {
        unsupported()
    }

    /// Sockets are not supported: always the "unsupported" error.
    pub fn read_vectored(&self, bufs: &mut Vec<Vec<u8>>) -> (r: IoResult<usize>)
        ensures
            r == Err::<usize, IoError>(unsupported_error()),
    {
        unsupported()
    }

    /// Sockets are not supported: always the "unsupported" error.
    pub fn write(&self, buf: &[u8]) -> (r: IoResult<usize>)
        ensures
            r == Err::<usize, IoError>(unsupported_error()),
    {
        unsupported()
    }

    /// Sockets are not supported: always the "unsupported" error.
    pub fn write_vectored(&self, bufs: &Vec<Vec<u8>>) -> (r: IoResult<usize>)
        ensures
            r == Err::<usize, IoError>(unsupported_error()),
    {
        unsupported()
    }

    /// Sockets are not supported: always the "unsupported" error.
    pub fn peer_addr(&self) -> (r: IoResult<SocketAddr>)
        ensures
            r == Err::<SocketAddr, IoError>(unsupported_error()),
    {
        unsupported()
    }

    /// Sockets are not supported: always the "unsupported" error.
    pub fn socket_addr(&self) -> (r: IoResult<SocketAddr>)
        ensures
            r == Err::<SocketAddr, IoError>(unsupported_error()),
    {
        unsupported()
    }

    /// Sockets are not supported: always the "unsupported" error.
    pub fn shutdown(&self, how: Shutdown) -> (r: IoResult<()>)
        ensures
            r == Err::<(), IoError>(unsupported_error()),
    {
        unsupported()
    }

    /// Sockets are not supported: always the "unsupported" error.
    pub fn duplicate(&self) -> (r: IoResult<TcpStream>)
        ensures
            r == Err::<TcpStream, IoError>(unsupported_error()),
    {
        unsupported()
    }

    /// Sockets are not supported: always the "unsupported" error.
    pub fn set_linger(&self, linger: Option<Duration>) -> (r: IoResult<()>)
        ensures
            r == Err::<(), IoError>(unsupported_error()),
    {
        unsupported()
    }

    /// Sockets are not supported: always the "unsupported" error.
    pub fn linger(&self) -> (r: IoResult<Option<Duration>>)
        ensures
            r == Err::<Option<Duration>, IoError>(unsupported_error()),
    {
        unsupported()
    }

    /// Sockets are not supported: always the "unsupported" error.
    pub fn set_nodelay(&self, nodelay: bool) -> (r: IoResult<()>)
        ensures
            r == Err::<(), IoError>(unsupported_error()),
    {
        unsupported()
    }

    /// Sockets are not supported: always the "unsupported" error.
    pub fn nodelay(&self) -> (r: IoResult<bool>)
        ensures
            r == Err::<bool, IoError>(unsupported_error()),
    {
        unsupported()
    }

    /// Sockets are not supported: always the "unsupported" error.
    pub fn set_ttl(&self, ttl: u32) -> (r: IoResult<()>)
        ensures
            r == Err::<(), IoError>(unsupported_error()),
    {
        unsupported()
    }

    /// Sockets are not supported: always the "unsupported" error.
    pub fn ttl(&self) -> (r: IoResult<u32>)
        ensures
            r == Err::<u32, IoError>(unsupported_error()),
    {
        unsupported()
    }

    /// No error is pending.
    pub fn take_error(&self) -> (r: IoResult<Option<IoError>>)
        ensures
            r == Ok::<Option<IoError>, IoError>(None),
    {
        Ok(None)
    }

    /// Sockets are not supported: always the "unsupported" error.
    pub fn set_nonblocking(&self, nonblocking: bool) -> (r: IoResult<()>)
        ensures
            r == Err::<(), IoError>(unsupported_error()),
    {
        unsupported()
    }
}

#[derive(Debug)]
pub struct TcpListener;

impl TcpListener {
    /// Sockets are not supported: always the "unsupported" error.
    pub fn bind(addr: &SocketAddr) -> (r: IoResult<TcpListener>)
        ensures
            r == Err::<TcpListener, IoError>(unsupported_error()),
    {
        unsupported()
    }

    /// Sockets are not supported: always the "unsupported" error.
    pub fn socket_addr(&self) -> (r: IoResult<SocketAddr>)
        ensures
            r == Err::<SocketAddr, IoError>(unsupported_error()),
    {
        unsupported()
    }

    /// Sockets are not supported: always the "unsupported" error.
    pub fn accept(&self) -> (r: IoResult<(TcpStream, SocketAddr)>)
        ensures
            r == Err::<(TcpStream, SocketAddr), IoError>(unsupported_error()),
    {
        unsupported()
    }

    /// Sockets are not supported: always the "unsupported" error.
    pub fn duplicate(&self) -> (r: IoResult<TcpListener>)
        ensures
            r == Err::<TcpListener, IoError>(unsupported_error()),
    {
        unsupported()
    }

    /// Sockets are not supported: always the "unsupported" error.
    pub fn set_ttl(&self, ttl: u32) -> (r: IoResult<()>)
        ensures
            r == Err::<(), IoError>(unsupported_error()),
    {
        unsupported()
    }

    /// Sockets are not supported: always the "unsupported" error.
    pub fn ttl(&self) -> (r: IoResult<u32>)
        ensures
            r == Err::<u32, IoError>(unsupported_error()),
    {
        unsupported()
    }

    /// Sockets are not supported: always the "unsupported" error.
    pub fn set_only_v6(&self, only_v6: bool) -> (r: IoResult<()>)
        ensures
            r == Err::<(), IoError>(unsupported_error()),
    {
        unsupported()
    }

    /// Sockets are not supported: always the "unsupported" error.
    pub fn only_v6(&self) -> (r: IoResult<bool>)
        ensures
            r == Err::<bool, IoError>(unsupported_error()),
    {
        unsupported()
    }

    /// No error is pending.
    pub fn take_error(&self) -> (r: IoResult<Option<IoError>>)
        ensures
            r == Ok::<Option<IoError>, IoError>(None),
    {
        Ok(None)
    }

    /// Sockets are not supported: always the "unsupported" error.
    pub fn set_nonblocking(&self, nonblocking: bool) -> (r: IoResult<()>)
        ensures
            r == Err::<(), IoError>(unsupported_error()),
    {
        unsupported()
    }
}

#[derive(Debug)]
pub struct UdpSocket;

impl UdpSocket {
    /// Sockets are not supported: always the "unsupported" error.
    pub fn bind(addr: &SocketAddr) -> (r: IoResult<UdpSocket>)
        ensures
            r == Err::<UdpSocket, IoError>(unsupported_error()),
    {
        unsupported()
    }

    /// Sockets are not supported: always the "unsupported" error.
    pub fn peer_addr(&self) -> (r: IoResult<SocketAddr>)
        ensures
            r == Err::<SocketAddr, IoError>(unsupported_error()),
    {
        unsupported()
    }

    /// Sockets are not supported: always the "unsupported" error.
    pub fn socket_addr(&self) -> (r: IoResult<SocketAddr>)
        ensures
            r == Err::<SocketAddr, IoError>(unsupported_error()),
    {
        unsupported()
    }

    /// Sockets are not supported: always the "unsupported" error.
    pub fn recv_from(&self, buf: &mut [u8]) -> (r: IoResult<(usize, SocketAddr)>)
        ensures
            r == Err::<(usize, SocketAddr), IoError>(unsupported_error()),
    {
        unsupported()
    }

    /// Sockets are not supported: always the "unsupported" error.
    pub fn peek_from(&self, buf: &mut [u8]) -> (r: IoResult<(usize, SocketAddr)>)
        ensures
            r == Err::<(usize, SocketAddr), IoError>(unsupported_error()),
    {
        unsupported()
    }

    /// Sockets are not supported: always the "unsupported" error.
    pub fn send_to(&self, buf: &[u8], addr: &SocketAddr) -> (r: IoResult<usize>)
        ensures
            r == Err::<usize, IoError>(unsupported_error()),
    {
        unsupported()
    }

    /// Sockets are not supported: always the "unsupported" error.
    pub fn duplicate(&self) -> (r: IoResult<UdpSocket>)
        ensures
            r == Err::<UdpSocket, IoError>(unsupported_error()),
    {
        unsupported()
    }

    /// Sockets are not supported: always the "unsupported" error.
    pub fn set_read_timeout(&self, dur: Option<Duration>) -> (r: IoResult<()>)
        ensures
            r == Err::<(), IoError>(unsupported_error()),
    {
        unsupported()
    }

    /// Sockets are not supported: always the "unsupported" error.
    pub fn set_write_timeout(&self, dur: Option<Duration>) -> (r: IoResult<()>)
        ensures
            r == Err::<(), IoError>(unsupported_error()),
    {
        unsupported()
    }

    /// Sockets are not supported: always the "unsupported" error.
    pub fn read_timeout(&self) -> (r: IoResult<Option<Duration>>)
        ensures
            r == Err::<Option<Duration>, IoError>(unsupported_error()),
    {
        unsupported()
    }

    /// Sockets are not supported: always the "unsupported" error.
    pub fn write_timeout(&self) -> (r: IoResult<Option<Duration>>)
        ensures
            r == Err::<Option<Duration>, IoError>(unsupported_error()),
    {
        unsupported()
    }

    /// Sockets are not supported: always the "unsupported" error.
    pub fn set_broadcast(&self, broadcast: bool) -> (r: IoResult<()>)
        ensures
            r == Err::<(), IoError>(unsupported_error()),
    {
        unsupported()
    }

    /// Sockets are not supported: always the "unsupported" error.
    pub fn broadcast(&self) -> (r: IoResult<bool>)
        ensures
            r == Err::<bool, IoError>(unsupported_error()),
    {
        unsupported()
    }

    /// Sockets are not supported: always the "unsupported" error.
    pub fn set_multicast_loop_v4(&self, multicast_loop_v4: bool) -> (r: IoResult<()>)
        ensures
            r == Err::<(), IoError>(unsupported_error()),
    {
        unsupported()
    }

    /// Sockets are not supported: always the "unsupported" error.
    pub fn multicast_loop_v4(&self) -> (r: IoResult<bool>)
        ensures
            r == Err::<bool, IoError>(unsupported_error()),
    {
        unsupported()
    }

    /// Sockets are not supported: always the "unsupported" error.
    pub fn set_multicast_ttl_v4(&self, multicast_ttl_v4: u32) -> (r: IoResult<()>)
        ensures
            r == Err::<(), IoError>(unsupported_error()),
    {
        unsupported()
    }

    /// Sockets are not supported: always the "unsupported" error.
    pub fn multicast_ttl_v4(&self) -> (r: IoResult<u32>)
        ensures
            r == Err::<u32, IoError>(unsupported_error()),
    {
        unsupported()
    }

    /// Sockets are not supported: always the "unsupported" error.
    pub fn set_multicast_loop_v6(&self, multicast_loop_v6: bool) -> (r: IoResult<()>)
        ensures
            r == Err::<(), IoError>(unsupported_error()),
    {
        unsupported()
    }

    /// Sockets are not supported: always the "unsupported" error.
    pub fn multicast_loop_v6(&self) -> (r: IoResult<bool>)
        ensures
            r == Err::<bool, IoError>(unsupported_error()),
    {
        unsupported()
    }

    /// Sockets are not supported: always the "unsupported" error.
    pub fn join_multicast_v4(&self, multiaddr: &Ipv4Addr, interface: &Ipv4Addr) -> (r: IoResult<()>)
        ensures
            r == Err::<(), IoError>(unsupported_error()),
    {
        unsupported()
    }

    /// Sockets are not supported: always the "unsupported" error.
    pub fn join_multicast_v6(&self, multiaddr: &Ipv6Addr, interface: u32) -> (r: IoResult<()>)
        ensures
            r == Err::<(), IoError>(unsupported_error()),
    {
        unsupported()
    }

    /// Sockets are not supported: always the "unsupported" error.
    pub fn leave_multicast_v4(&self, multiaddr: &Ipv4Addr, interface: &Ipv4Addr) -> (r: IoResult<()>)
        ensures
            r == Err::<(), IoError>(unsupported_error()),
    {
        unsupported()
    }

    /// Sockets are not supported: always the "unsupported" error.
    pub fn leave_multicast_v6(&self, multiaddr: &Ipv6Addr, interface: u32) -> (r: IoResult<()>)
        ensures
            r == Err::<(), IoError>(unsupported_error()),
    {
        unsupported()
    }

    /// Sockets are not supported: always the "unsupported" error.
    pub fn set_ttl(&self, ttl: u32) -> (r: IoResult<()>)
        ensures
            r == Err::<(), IoError>(unsupported_error()),
    {
        unsupported()
    }

    /// Sockets are not supported: always the "unsupported" error.
    pub fn ttl(&self) -> (r: IoResult<u32>)
        ensures
            r == Err::<u32, IoError>(unsupported_error()),
    {
        unsupported()
    }

    /// No error is pending.
    pub fn take_error(&self) -> (r: IoResult<Option<IoError>>)
        ensures
            r == Ok::<Option<IoError>, IoError>(None),
    {
        Ok(None)
    }

    /// Sockets are not supported: always the "unsupported" error.
    pub fn set_nonblocking(&self, nonblocking: bool) -> (r: IoResult<()>)
        ensures
            r == Err::<(), IoError>(unsupported_error()),
    {
        unsupported()
    }

    /// Sockets are not supported: always the "unsupported" error.
    pub fn recv(&self, buf: &mut [u8]) -> (r: IoResult<usize>)
        ensures
            r == Err::<usize, IoError>(unsupported_error()),
    {
        unsupported()
    }

    /// Sockets are not supported: always the "unsupported" error.
    pub fn peek(&self, buf: &mut [u8]) -> (r: IoResult<usize>)
        ensures
            r == Err::<usize, IoError>(unsupported_error()),
    {
        unsupported()
    }

    /// Sockets are not supported: always the "unsupported" error.
    pub fn send(&self, buf: &[u8]) -> (r: IoResult<usize>)
        ensures
            r == Err::<usize, IoError>(unsupported_error()),
    {
        unsupported()
    }

    /// Sockets are not supported: always the "unsupported" error.
    pub fn connect(&self, addr: &SocketAddr) -> (r: IoResult<()>)
        ensures
            r == Err::<(), IoError>(unsupported_error()),
    {
        unsupported()
    }
}

/// Addresses a host name resolves to.
#[derive(Debug)]
pub struct LookupHost;

/// Sockets are not supported: always the "unsupported" error.
pub fn lookup_host(host: &str) -> (r: IoResult<LookupHost>)
    ensures
        r == Err::<LookupHost, IoError>(unsupported_error()),
{
    unsupported()
}

} // verus!
