use scheme_sys::addr::{Ipv4Addr, SocketAddrV4};
use scheme_sys::error::{Error, ENOTCONN};
use scheme_sys::fs::{
    FileType, FileTypeExt, OpenOptions, OpenOptionsExt, Permissions, PermissionsExt, MODE_DIR,
    MODE_FILE, O_APPEND, O_CREAT, O_RDONLY, O_RDWR, O_TRUNC, O_WRONLY,
};
use scheme_sys::net::{
    listen_command, tcp_bind_path, tcp_connect_path, udp_bind_path, udp_connect_path, TcpListener,
    TcpStream, UdpSocket,
};

fn addr(a: u8, b: u8, c: u8, d: u8, port: u16) -> SocketAddrV4 {
    SocketAddrV4::new(Ipv4Addr::new(a, b, c, d), port)
}

#[test]
fn socket_paths_follow_the_grammar() {
    assert_eq!(tcp_connect_path(&addr(93, 184, 216, 34, 80)), b"tcp:93.184.216.34:80".to_vec());
    assert_eq!(tcp_bind_path(8080), b"tcp:/8080".to_vec());
    assert_eq!(udp_bind_path(68), b"udp:/68".to_vec());
    assert_eq!(udp_connect_path(&addr(8, 8, 8, 8, 53)), b"udp:8.8.8.8:53".to_vec());
    assert_eq!(listen_command(), b"listen".to_vec());
}

#[test]
fn datagram_peer_command_needs_a_selected_peer() {
    let mut sock = UdpSocket::from_fd(7);
    assert_eq!(sock.peer_command().map(|_| ()), Err(Error::Other(ENOTCONN)));
    sock.connect(&addr(10, 0, 0, 1, 6000)).unwrap();
    assert_eq!(sock.peer_command(), Ok(b"10.0.0.1:6000".to_vec()));
    assert_eq!(sock.fd(), 7);
}

#[test]
fn options_without_a_primitive_are_unsupported_not_noops() {
    let stream = TcpStream::from_fd(3);
    assert_eq!(stream.nodelay().map(|_| ()), Err(Error::Unsupported));
    assert_eq!(stream.set_nodelay(true), Err(Error::Unsupported));
    assert_eq!(stream.set_ttl(64), Err(Error::Unsupported));
    assert_eq!(stream.read_timeout().map(|_| ()), Err(Error::Unsupported));
    assert_eq!(stream.set_nonblocking(true), Err(Error::Unsupported));
    assert_eq!(stream.shutdown(), Err(Error::Unsupported));

    let listener = TcpListener::from_fd(4);
    assert_eq!(listener.ttl().map(|_| ()), Err(Error::Unsupported));
    assert_eq!(listener.set_only_v6(false), Err(Error::Unsupported));

    let sock = UdpSocket::from_fd(5);
    assert_eq!(sock.broadcast().map(|_| ()), Err(Error::Unsupported));
    assert_eq!(sock.set_write_timeout(None), Err(Error::Unsupported));
}

#[test]
fn take_error_never_reports_a_pending_error() {
    assert!(matches!(TcpStream::from_fd(3).take_error(), Ok(None)));
    assert!(matches!(TcpListener::from_fd(4).take_error(), Ok(None)));
    assert!(matches!(UdpSocket::from_fd(5).take_error(), Ok(None)));
}

#[test]
fn open_flags_combine_access_and_modifiers() {
    let mut o = OpenOptions::new();
    assert_eq!(o.flags(), 0);
    o.read(true);
    assert_eq!(o.flags(), O_RDONLY);
    o.write(true);
    assert_eq!(o.flags(), O_RDWR);
    o.read(false);
    assert_eq!(o.flags(), O_WRONLY);
    o.append(true);
    o.create(true);
    o.truncate(true);
    assert_eq!(o.flags(), O_WRONLY | O_APPEND | O_CREAT | O_TRUNC);
    o.mode(0o17644);
    // Only the twelve permission bits of the requested mode survive.
    assert_eq!(o.flags(), O_WRONLY | O_APPEND | O_CREAT | O_TRUNC | 0o7644);
}

#[test]
fn file_type_reads_the_mode_bits() {
    let dir = FileType::from_mode(MODE_DIR | 0o755);
    assert!(dir.is_dir());
    assert!(!dir.is_file());
    assert!(!dir.is_symlink());
    let file = FileType::from_mode(MODE_FILE | 0o644);
    assert!(file.is_file());
    assert!(!file.is_dir());
    assert!(!file.is_block_device());
    assert!(!file.is_char_device());
    assert!(!file.is_fifo());
    assert!(!file.is_socket());
}

#[test]
fn permissions_toggle_the_write_bits() {
    let mut p = Permissions::from_mode((MODE_FILE | 0o644) as u32);
    assert!(!p.readonly());
    assert_eq!(p.mode(), (MODE_FILE | 0o644) as u32);
    p.set_readonly(true);
    assert!(p.readonly());
    p.set_readonly(false);
    assert!(!p.readonly());
    p.set_mode(0o444);
    assert!(p.readonly());
}
