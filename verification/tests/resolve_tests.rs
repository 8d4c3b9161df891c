use scheme_sys::addr::{Ipv4Addr, SocketAddrV4};
use scheme_sys::dns::{Dns, DnsAnswer};
use scheme_sys::error::Error;
use scheme_sys::resolve::{
    build_query, dns_server_path, lookup_request, parse_dns_config, resolve_response,
    tid_from_nanos, trim,
};

fn a_answer(data: Vec<u8>) -> DnsAnswer {
    DnsAnswer { name: b"example.com.".to_vec(), a_type: 1, a_class: 1, ttl: 3600, data }
}

#[test]
fn config_line_must_hold_four_octets() {
    assert_eq!(parse_dns_config(b"8.8.8.8"), Ok(Ipv4Addr::new(8, 8, 8, 8)));
    assert_eq!(parse_dns_config(b"  10.1.2.3\n"), Ok(Ipv4Addr::new(10, 1, 2, 3)));
    assert_eq!(parse_dns_config(b"8.8.8"), Err(Error::InvalidInput));
    assert_eq!(parse_dns_config(b"8.8.8.8.8"), Err(Error::InvalidInput));
    assert_eq!(parse_dns_config(b""), Err(Error::InvalidInput));
}

#[test]
fn unparseable_octets_count_as_zero_but_the_count_still_rules() {
    // Only the token count is validated; a token that is not a decimal
    // octet contributes zero.
    assert_eq!(parse_dns_config(b"8.8.x.8"), Ok(Ipv4Addr::new(8, 8, 0, 8)));
    assert_eq!(parse_dns_config(b"300.8.8.8"), Ok(Ipv4Addr::new(0, 8, 8, 8)));
}

#[test]
fn server_path_names_the_datagram_socket() {
    assert_eq!(dns_server_path(&Ipv4Addr::new(8, 8, 8, 8)), b"udp:8.8.8.8:53".to_vec());
}

#[test]
fn lookup_request_builds_flags_and_question() {
    let (path, packet) = lookup_request(b"example.com.", 0x1234, b"8.8.8.8").unwrap();
    assert_eq!(path, b"udp:8.8.8.8:53".to_vec());
    let msg = Dns::parse(&packet).unwrap();
    assert_eq!(msg.transaction_id, 0x1234);
    assert_eq!(msg.flags, 0x0100);
    assert_eq!(msg.queries.len(), 1);
    assert_eq!(msg.queries[0].name, b"example.com.".to_vec());
    assert_eq!(msg.queries[0].q_type, 1);
    assert_eq!(msg.queries[0].q_class, 1);
    assert_eq!(msg.answers.len(), 0);
}

#[test]
fn lookup_request_rejects_bad_config_and_oversized_labels() {
    assert_eq!(
        lookup_request(b"example.com.", 1, b"not-a-server").map(|_| ()),
        Err(Error::InvalidInput)
    );
    let long_label = vec![b'x'; 300];
    assert_eq!(build_query(&long_label, 1).map(|_| ()), Err(Error::InvalidInput));
}

#[test]
fn response_with_one_a_answer_yields_its_address() {
    let response = Dns {
        transaction_id: 0x1234,
        flags: 0x8180,
        queries: Vec::new(),
        answers: vec![a_answer(vec![93, 184, 216, 34])],
    };
    let addrs = resolve_response(&response.compile()).unwrap();
    assert_eq!(addrs, vec![SocketAddrV4::new(Ipv4Addr::new(93, 184, 216, 34), 0)]);
}

#[test]
fn every_a_answer_is_kept_in_answer_order() {
    let response = Dns {
        transaction_id: 2,
        flags: 0x8180,
        queries: Vec::new(),
        answers: vec![
            a_answer(vec![1, 1, 1, 1]),
            // A CNAME-like record between two A records is skipped.
            DnsAnswer {
                name: b"example.com.".to_vec(),
                a_type: 5,
                a_class: 1,
                ttl: 60,
                data: vec![1, 2, 3],
            },
            a_answer(vec![2, 2, 2, 2]),
            a_answer(vec![3, 3, 3, 3]),
        ],
    };
    let addrs = resolve_response(&response.compile()).unwrap();
    assert_eq!(
        addrs,
        vec![
            SocketAddrV4::new(Ipv4Addr::new(1, 1, 1, 1), 0),
            SocketAddrV4::new(Ipv4Addr::new(2, 2, 2, 2), 0),
            SocketAddrV4::new(Ipv4Addr::new(3, 3, 3, 3), 0),
        ]
    );
}

#[test]
fn answers_with_wrong_class_or_size_are_not_addresses() {
    let response = Dns {
        transaction_id: 3,
        flags: 0x8180,
        queries: Vec::new(),
        answers: vec![
            DnsAnswer {
                name: b"example.com.".to_vec(),
                a_type: 1,
                a_class: 3,
                ttl: 60,
                data: vec![9, 9, 9, 9],
            },
            DnsAnswer {
                name: b"example.com.".to_vec(),
                a_type: 1,
                a_class: 1,
                ttl: 60,
                data: vec![9, 9, 9],
            },
        ],
    };
    let addrs = resolve_response(&response.compile()).unwrap();
    assert_eq!(addrs, Vec::new());
}

#[test]
fn malformed_response_is_invalid_input_never_shortened() {
    let response = Dns {
        transaction_id: 4,
        flags: 0x8180,
        queries: Vec::new(),
        answers: vec![a_answer(vec![1, 1, 1, 1]), a_answer(vec![2, 2, 2, 2])],
    };
    let bytes = response.compile();
    // Cutting the second answer must fail the whole decode rather than
    // yield one address.
    let cut = &bytes[..bytes.len() - 2];
    assert_eq!(resolve_response(cut).map(|_| ()), Err(Error::InvalidInput));
}

#[test]
fn transaction_id_comes_from_the_middle_bits() {
    assert_eq!(tid_from_nanos(0), 0);
    assert_eq!(tid_from_nanos(0x1234_5678), 0x1234);
    assert_eq!(tid_from_nanos(0xFFFF_FFFF), 0xFFFF);
}

#[test]
fn trim_strips_ascii_whitespace_only_at_the_ends() {
    assert_eq!(trim(b"\t 8.8.8.8 \n"), b"8.8.8.8");
    assert_eq!(trim(b"a b"), b"a b");
    assert_eq!(trim(b"   "), b"");
    assert_eq!(trim(b""), b"");
}
