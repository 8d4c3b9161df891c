use scheme_sys::addr::{
    format_addr, parse_dec, parse_ipv4, path_to_local_addr, path_to_peer_addr, split2, Ipv4Addr,
    SocketAddrV4,
};

fn addr(a: u8, b: u8, c: u8, d: u8, port: u16) -> SocketAddrV4 {
    SocketAddrV4::new(Ipv4Addr::new(a, b, c, d), port)
}

#[test]
fn format_addr_is_dotted_quad_and_port() {
    assert_eq!(format_addr(&addr(1, 2, 3, 4, 80)), b"1.2.3.4:80".to_vec());
    assert_eq!(format_addr(&addr(0, 0, 0, 0, 0)), b"0.0.0.0:0".to_vec());
    assert_eq!(format_addr(&addr(255, 255, 255, 255, 65535)), b"255.255.255.255:65535".to_vec());
}

#[test]
fn parse_dec_bounds_and_shapes() {
    assert_eq!(parse_dec(b"0", 255), Some(0));
    assert_eq!(parse_dec(b"255", 255), Some(255));
    assert_eq!(parse_dec(b"256", 255), None);
    assert_eq!(parse_dec(b"", 255), None);
    assert_eq!(parse_dec(b"12a", 255), None);
    assert_eq!(parse_dec(b"007", 255), Some(7));
    assert_eq!(parse_dec(b"0000000080", 65535), Some(80));
    assert_eq!(parse_dec(b"99999999999999999999", 65535), None);
}

#[test]
fn parse_ipv4_accepts_quads_only() {
    assert_eq!(parse_ipv4(b"8.8.8.8"), Some(Ipv4Addr::new(8, 8, 8, 8)));
    assert_eq!(parse_ipv4(b"255.0.1.2"), Some(Ipv4Addr::new(255, 0, 1, 2)));
    assert_eq!(parse_ipv4(b"1.2.3"), None);
    assert_eq!(parse_ipv4(b"1.2.3.4.5"), None);
    assert_eq!(parse_ipv4(b"1.2.3.256"), None);
    assert_eq!(parse_ipv4(b"1.2.3."), None);
    assert_eq!(parse_ipv4(b""), None);
}

#[test]
fn split_keeps_empty_tokens() {
    let toks = split2(b"tcp:1.2.3.4:80/1234", 58, 47);
    assert_eq!(toks.len(), 4);
    assert_eq!(toks[0], b"tcp".to_vec());
    assert_eq!(toks[1], b"1.2.3.4".to_vec());
    assert_eq!(toks[2], b"80".to_vec());
    assert_eq!(toks[3], b"1234".to_vec());

    let toks = split2(b"", 58, 47);
    assert_eq!(toks.len(), 1);
    assert_eq!(toks[0], b"".to_vec());

    let toks = split2(b"a::b", 58, 47);
    assert_eq!(toks.len(), 3);
    assert_eq!(toks[1], b"".to_vec());
}

#[test]
fn peer_addr_comes_from_second_and_third_tokens() {
    assert_eq!(path_to_peer_addr(b"tcp:9.8.7.6:443/1234"), addr(9, 8, 7, 6, 443));
    assert_eq!(path_to_peer_addr(b"udp:1.2.3.4:53"), addr(1, 2, 3, 4, 53));
}

#[test]
fn accepted_connection_path_parses_to_nonzero_peer() {
    let peer = path_to_peer_addr(b"tcp:10.0.2.15:41230/8080");
    assert_eq!(peer, addr(10, 0, 2, 15, 41230));
    assert!(peer.ip != Ipv4Addr::new(0, 0, 0, 0));
    assert!(peer.port != 0);
}

#[test]
fn unparseable_peer_tokens_fall_back_to_zero() {
    assert_eq!(path_to_peer_addr(b"tcp"), addr(0, 0, 0, 0, 0));
    assert_eq!(path_to_peer_addr(b"tcp:nonsense:80"), addr(0, 0, 0, 0, 80));
    assert_eq!(path_to_peer_addr(b"tcp:1.2.3.4:notaport"), addr(1, 2, 3, 4, 0));
    assert_eq!(path_to_peer_addr(b""), addr(0, 0, 0, 0, 0));
}

#[test]
fn local_addr_keeps_only_the_fourth_token_as_port() {
    assert_eq!(path_to_local_addr(b"tcp:9.8.7.6:443/1234"), addr(0, 0, 0, 0, 1234));
    assert_eq!(path_to_local_addr(b"tcp:9.8.7.6:443"), addr(0, 0, 0, 0, 0));
}
