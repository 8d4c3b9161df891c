//! The virtual socket layer: streams, listeners and datagram sockets built
//! from addressable resources through per-scheme path grammars.
//!
//! Connecting opens `tcp:<ip>:<port>`; passive binding opens `tcp:/<port>`;
//! accepting duplicates the bound resource with the command `listen`; a
//! datagram socket picks a destination or source by duplicating with the
//! address text, and receives-from with `listen`. Peer and local addresses
//! are reconstructed from the resolved path, never cached independently.
//! Socket options with no backing primitive return `Unsupported`, never a
//! silent no-op, and there is no asynchronous error channel.

use vstd::prelude::*;

use crate::addr::{format_addr, push_dec_u16, spec_dec, spec_format_addr, SocketAddrV4};
use crate::error::{Error, ENOTCONN};

verus! {

/// The path that connects a stream: `tcp:<ip>:<port>`.
pub open spec fn spec_tcp_connect_path(addr: SocketAddrV4) -> Seq<u8> {
    seq![116u8, 99u8, 112u8, 58u8] + spec_format_addr(addr)
}

/// Format the connect path `tcp:<ip>:<port>`.
pub fn tcp_connect_path(addr: &SocketAddrV4) -> (r: Vec<u8>)
    ensures
        r@ == spec_tcp_connect_path(*addr),
{
    let mut out: Vec<u8> = Vec::new();
    out.push(116);
    out.push(99);
    out.push(112);
    out.push(58);
    let mut rest = format_addr(addr);
    out.append(&mut rest);
    proof {
        assert(out@ =~= spec_tcp_connect_path(*addr));
    }
    out
}

/// The path that binds a listener: `tcp:/<port>`.
pub open spec fn spec_tcp_bind_path(port: u16) -> Seq<u8> {
    seq![116u8, 99u8, 112u8, 58u8, 47u8] + spec_dec(port as int)
}

/// Format the passive-bind path `tcp:/<port>`.
pub fn tcp_bind_path(port: u16) -> (r: Vec<u8>)
    ensures
        r@ == spec_tcp_bind_path(port),
{
    let mut out: Vec<u8> = Vec::new();
    out.push(116);
    out.push(99);
    out.push(112);
    out.push(58);
    out.push(47);
    push_dec_u16(&mut out, port);
    proof {
        assert(out@ =~= spec_tcp_bind_path(port));
    }
    out
}

/// The path that binds a datagram socket: `udp:/<port>`.
pub open spec fn spec_udp_bind_path(port: u16) -> Seq<u8> {
    seq![117u8, 100u8, 112u8, 58u8, 47u8] + spec_dec(port as int)
}

/// Format the datagram bind path `udp:/<port>`.
pub fn udp_bind_path(port: u16) -> (r: Vec<u8>)
    ensures
        r@ == spec_udp_bind_path(port),
{
    let mut out: Vec<u8> = Vec::new();
    out.push(117);
    out.push(100);
    out.push(112);
    out.push(58);
    out.push(47);
    push_dec_u16(&mut out, port);
    proof {
        assert(out@ =~= spec_udp_bind_path(port));
    }
    out
}

/// The path that opens a datagram socket towards one peer: `udp:<ip>:<port>`.
pub open spec fn spec_udp_connect_path(addr: SocketAddrV4) -> Seq<u8> {
    seq![117u8, 100u8, 112u8, 58u8] + spec_format_addr(addr)
}

/// Format the datagram connect path `udp:<ip>:<port>`.
pub fn udp_connect_path(addr: &SocketAddrV4) -> (r: Vec<u8>)
    ensures
        r@ == spec_udp_connect_path(*addr),
{
    let mut out: Vec<u8> = Vec::new();
    out.push(117);
    out.push(100);
    out.push(112);
    out.push(58);
    let mut rest = format_addr(addr);
    out.append(&mut rest);
    proof {
        assert(out@ =~= spec_udp_connect_path(*addr));
    }
    out
}

/// The duplicate command `listen`: block until a peer connection or a
/// datagram event is available and yield a resource bound to it.
pub open spec fn spec_listen_command() -> Seq<u8> {
    seq![108u8, 105u8, 115u8, 116u8, 101u8, 110u8]
}

/// The duplicate command that accepts one connection or receives one
/// datagram.
pub fn listen_command() -> (r: Vec<u8>)
    ensures
        r@ == spec_listen_command(),
{
    let mut out: Vec<u8> = Vec::new();
    out.push(108);
    out.push(105);
    out.push(115);
    out.push(116);
    out.push(101);
    out.push(110);
    proof {
        assert(out@ =~= spec_listen_command());
    }
    out
}

/// A connected byte stream over one descriptor.
pub struct TcpStream {
    fd: usize,
}

impl View for TcpStream {
    type V = usize;

    closed spec fn view(&self) -> usize {
        self.fd
    }
}

impl TcpStream {
    /// Adopt the descriptor an open or duplicate returned.
    pub fn from_fd(fd: usize) -> (r: TcpStream)
        ensures
            r@ == fd,
    {
        TcpStream { fd }
    }

    pub fn fd(&self) -> (r: usize)
        ensures
            r == self@,
    {
        self.fd
    }

    /// There is no asynchronous error channel: never a pending error.
    pub fn take_error(&self) -> (r: Result<Option<Error>, Error>)
        ensures
            r matches Ok(o) && o is None,
    {
        Ok(None)
    }

    /// No backing primitive shuts one direction down.
    pub fn shutdown(&self) -> (r: Result<(), Error>)
        ensures
            r matches Err(e) && e == Error::Unsupported,
    {
        Err(Error::Unsupported)
    }

    pub fn nodelay(&self) -> (r: Result<bool, Error>)
        ensures
            r matches Err(e) && e == Error::Unsupported,
    {
        Err(Error::Unsupported)
    }

    pub fn set_nodelay(&self, _nodelay: bool) -> (r: Result<(), Error>)
        ensures
            r matches Err(e) && e == Error::Unsupported,
    {
        Err(Error::Unsupported)
    }

    pub fn nonblocking(&self) -> (r: Result<bool, Error>)
        ensures
            r matches Err(e) && e == Error::Unsupported,
    {
        Err(Error::Unsupported)
    }

    pub fn set_nonblocking(&self, _nonblocking: bool) -> (r: Result<(), Error>)
        ensures
            r matches Err(e) && e == Error::Unsupported,
    {
        Err(Error::Unsupported)
    }

    pub fn only_v6(&self) -> (r: Result<bool, Error>)
        ensures
            r matches Err(e) && e == Error::Unsupported,
    {
        Err(Error::Unsupported)
    }

    pub fn set_only_v6(&self, _only_v6: bool) -> (r: Result<(), Error>)
        ensures
            r matches Err(e) && e == Error::Unsupported,
    {
        Err(Error::Unsupported)
    }

    pub fn ttl(&self) -> (r: Result<u32, Error>)
        ensures
            r matches Err(e) && e == Error::Unsupported,
    {
        Err(Error::Unsupported)
    }

    pub fn set_ttl(&self, _ttl: u32) -> (r: Result<(), Error>)
        ensures
            r matches Err(e) && e == Error::Unsupported,
    {
        Err(Error::Unsupported)
    }

    pub fn read_timeout(&self) -> (r: Result<Option<u64>, Error>)
        ensures
            r matches Err(e) && e == Error::Unsupported,
    {
        Err(Error::Unsupported)
    }

    pub fn set_read_timeout(&self, _dur: Option<u64>) -> (r: Result<(), Error>)
        ensures
            r matches Err(e) && e == Error::Unsupported,
    {
        Err(Error::Unsupported)
    }

    pub fn write_timeout(&self) -> (r: Result<Option<u64>, Error>)
        ensures
            r matches Err(e) && e == Error::Unsupported,
    {
        Err(Error::Unsupported)
    }

    pub fn set_write_timeout(&self, _dur: Option<u64>) -> (r: Result<(), Error>)
        ensures
            r matches Err(e) && e == Error::Unsupported,
    {
        Err(Error::Unsupported)
    }
}

/// A passively bound listener over one descriptor.
pub struct TcpListener {
    fd: usize,
}

impl View for TcpListener {
    type V = usize;

    closed spec fn view(&self) -> usize {
        self.fd
    }
}

impl TcpListener {
    /// Adopt the descriptor that opening `tcp:/<port>` returned.
    pub fn from_fd(fd: usize) -> (r: TcpListener)
        ensures
            r@ == fd,
    {
        TcpListener { fd }
    }

    pub fn fd(&self) -> (r: usize)
        ensures
            r == self@,
    {
        self.fd
    }

    /// There is no asynchronous error channel: never a pending error.
    pub fn take_error(&self) -> (r: Result<Option<Error>, Error>)
        ensures
            r matches Ok(o) && o is None,
    {
        Ok(None)
    }

    pub fn nonblocking(&self) -> (r: Result<bool, Error>)
        ensures
            r matches Err(e) && e == Error::Unsupported,
    {
        Err(Error::Unsupported)
    }

    pub fn set_nonblocking(&self, _nonblocking: bool) -> (r: Result<(), Error>)
        ensures
            r matches Err(e) && e == Error::Unsupported,
    {
        Err(Error::Unsupported)
    }

    pub fn only_v6(&self) -> (r: Result<bool, Error>)
        ensures
            r matches Err(e) && e == Error::Unsupported,
    {
        Err(Error::Unsupported)
    }

    pub fn set_only_v6(&self, _only_v6: bool) -> (r: Result<(), Error>)
        ensures
            r matches Err(e) && e == Error::Unsupported,
    {
        Err(Error::Unsupported)
    }

    pub fn ttl(&self) -> (r: Result<u32, Error>)
        ensures
            r matches Err(e) && e == Error::Unsupported,
    {
        Err(Error::Unsupported)
    }

    pub fn set_ttl(&self, _ttl: u32) -> (r: Result<(), Error>)
        ensures
            r matches Err(e) && e == Error::Unsupported,
    {
        Err(Error::Unsupported)
    }
}

/// The mathematical value of a datagram socket: its descriptor and the
/// selected peer, if any.
#[verifier::ext_equal]
pub struct UdpSocketV {
    pub fd: usize,
    pub peer: Option<SocketAddrV4>,
}

/// A datagram socket: one bound descriptor and the peer selected by
/// `connect`, if any. Sending and receiving duplicate the bound resource
/// with the peer's address text for one exchange.
pub struct UdpSocket {
    fd: usize,
    peer: Option<SocketAddrV4>,
}

impl View for UdpSocket {
    type V = UdpSocketV;

    closed spec fn view(&self) -> UdpSocketV {
        UdpSocketV { fd: self.fd, peer: self.peer }
    }
}

impl UdpSocket {
    /// Adopt the descriptor that opening the bind path returned.
    pub fn from_fd(fd: usize) -> (r: UdpSocket)
        ensures
            r@ == (UdpSocketV { fd, peer: None }),
    {
        UdpSocket { fd, peer: None }
    }

    pub fn fd(&self) -> (r: usize)
        ensures
            r == self@.fd,
    {
        self.fd
    }

    /// Select the peer for later sends and receives; nothing moves yet.
    pub fn connect(&mut self, addr: &SocketAddrV4) -> (r: Result<(), Error>)
        ensures
            r matches Ok(u) && u == (),
            final(self)@ == (UdpSocketV { fd: old(self)@.fd, peer: Some(*addr) }),
    {
        self.peer = Some(*addr);
        Ok(())
    }

    /// The duplicate command for one exchange with the selected peer: the
    /// peer's address text, or an error when no peer was selected.
    pub fn peer_command(&self) -> (r: Result<Vec<u8>, Error>)
        ensures
            match self@.peer {
                Some(a) => r matches Ok(v) && v@ == spec_format_addr(a),
                None => r matches Err(e) && e == Error::Other(ENOTCONN),
            },
    {
        match &self.peer {
            Some(a) => Ok(format_addr(a)),
            None => Err(Error::Other(ENOTCONN)),
        }
    }

    /// There is no asynchronous error channel: never a pending error.
    pub fn take_error(&self) -> (r: Result<Option<Error>, Error>)
        ensures
            r matches Ok(o) && o is None,
    {
        Ok(None)
    }

    pub fn broadcast(&self) -> (r: Result<bool, Error>)
        ensures
            r matches Err(e) && e == Error::Unsupported,
    {
        Err(Error::Unsupported)
    }

    pub fn set_broadcast(&self, _broadcast: bool) -> (r: Result<(), Error>)
        ensures
            r matches Err(e) && e == Error::Unsupported,
    {
        Err(Error::Unsupported)
    }

    pub fn nonblocking(&self) -> (r: Result<bool, Error>)
        ensures
            r matches Err(e) && e == Error::Unsupported,
    {
        Err(Error::Unsupported)
    }

    pub fn set_nonblocking(&self, _nonblocking: bool) -> (r: Result<(), Error>)
        ensures
            r matches Err(e) && e == Error::Unsupported,
    {
        Err(Error::Unsupported)
    }

    pub fn only_v6(&self) -> (r: Result<bool, Error>)
        ensures
            r matches Err(e) && e == Error::Unsupported,
    {
        Err(Error::Unsupported)
    }

    pub fn set_only_v6(&self, _only_v6: bool) -> (r: Result<(), Error>)
        ensures
            r matches Err(e) && e == Error::Unsupported,
    {
        Err(Error::Unsupported)
    }

    pub fn ttl(&self) -> (r: Result<u32, Error>)
        ensures
            r matches Err(e) && e == Error::Unsupported,
    {
        Err(Error::Unsupported)
    }

    pub fn set_ttl(&self, _ttl: u32) -> (r: Result<(), Error>)
        ensures
            r matches Err(e) && e == Error::Unsupported,
    {
        Err(Error::Unsupported)
    }

    pub fn read_timeout(&self) -> (r: Result<Option<u64>, Error>)
        ensures
            r matches Err(e) && e == Error::Unsupported,
    {
        Err(Error::Unsupported)
    }

    pub fn set_read_timeout(&self, _dur: Option<u64>) -> (r: Result<(), Error>)
        ensures
            r matches Err(e) && e == Error::Unsupported,
    {
        Err(Error::Unsupported)
    }

    pub fn write_timeout(&self) -> (r: Result<Option<u64>, Error>)
        ensures
            r matches Err(e) && e == Error::Unsupported,
    {
        Err(Error::Unsupported)
    }

    pub fn set_write_timeout(&self, _dur: Option<u64>) -> (r: Result<(), Error>)
        ensures
            r matches Err(e) && e == Error::Unsupported,
    {
        Err(Error::Unsupported)
    }
}

} // verus!
