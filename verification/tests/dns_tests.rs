use scheme_sys::dns::{Dns, DnsAnswer, DnsQuery};
use scheme_sys::error::Error;

fn query_message(tid: u16, flags: u16, name: &[u8]) -> Dns {
    Dns {
        transaction_id: tid,
        flags,
        queries: vec![DnsQuery { name: name.to_vec(), q_type: 1, q_class: 1 }],
        answers: Vec::new(),
    }
}

#[test]
fn compile_one_question_exact_bytes() {
    let msg = query_message(0x1234, 0x0100, b"example.com.");
    let bytes = msg.compile();
    let mut expected: Vec<u8> = vec![
        0x12, 0x34, // transaction id
        0x01, 0x00, // flags: recursion desired
        0x00, 0x01, // one question
        0x00, 0x00, // no answers
        0x00, 0x00, 0x00, 0x00, // no other records
    ];
    expected.extend_from_slice(&[7]);
    expected.extend_from_slice(b"example");
    expected.extend_from_slice(&[3]);
    expected.extend_from_slice(b"com");
    expected.extend_from_slice(&[0]);
    expected.extend_from_slice(&[0x00, 0x01, 0x00, 0x01]);
    assert_eq!(bytes, expected);
}

#[test]
fn decode_encode_reproduces_question() {
    let msg = query_message(0xBEEF, 0x0100, b"example.com.");
    let decoded = Dns::parse(&msg.compile()).unwrap();
    assert_eq!(decoded.transaction_id, 0xBEEF);
    assert_eq!(decoded.flags, 0x0100);
    assert_eq!(decoded.queries.len(), 1);
    assert_eq!(decoded.queries[0].name, b"example.com.".to_vec());
    assert_eq!(decoded.queries[0].q_type, 1);
    assert_eq!(decoded.queries[0].q_class, 1);
    assert_eq!(decoded.answers.len(), 0);
}

#[test]
fn decode_encode_reproduces_root_and_long_names() {
    let msg = query_message(7, 0x0100, b"");
    let decoded = Dns::parse(&msg.compile()).unwrap();
    assert_eq!(decoded.queries[0].name, b"".to_vec());

    let msg = query_message(8, 0x0100, b"a.bc.def.ghij.");
    let decoded = Dns::parse(&msg.compile()).unwrap();
    assert_eq!(decoded.queries[0].name, b"a.bc.def.ghij.".to_vec());
}

#[test]
fn decode_encode_reproduces_answers() {
    let msg = Dns {
        transaction_id: 99,
        flags: 0x8180,
        queries: vec![DnsQuery { name: b"example.com.".to_vec(), q_type: 1, q_class: 1 }],
        answers: vec![
            DnsAnswer {
                name: b"example.com.".to_vec(),
                a_type: 1,
                a_class: 1,
                ttl: 3600,
                data: vec![93, 184, 216, 34],
            },
            DnsAnswer {
                name: b"example.com.".to_vec(),
                a_type: 5,
                a_class: 1,
                ttl: 60,
                data: vec![1, 2, 3],
            },
        ],
    };
    let decoded = Dns::parse(&msg.compile()).unwrap();
    assert_eq!(decoded.answers.len(), 2);
    assert_eq!(decoded.answers[0].name, b"example.com.".to_vec());
    assert_eq!(decoded.answers[0].a_type, 1);
    assert_eq!(decoded.answers[0].a_class, 1);
    assert_eq!(decoded.answers[0].ttl, 3600);
    assert_eq!(decoded.answers[0].data, vec![93, 184, 216, 34]);
    assert_eq!(decoded.answers[1].a_type, 5);
    assert_eq!(decoded.answers[1].data, vec![1, 2, 3]);
}

#[test]
fn parse_rejects_truncated_header() {
    assert!(matches!(Dns::parse(&[0x12, 0x34, 0x01]), Err(Error::InvalidInput)));
    assert!(matches!(Dns::parse(&[]), Err(Error::InvalidInput)));
}

#[test]
fn parse_rejects_truncated_question() {
    let msg = query_message(1, 0x0100, b"example.com.");
    let bytes = msg.compile();
    // Drop the final class byte: the counted question can no longer be read.
    let cut = &bytes[..bytes.len() - 1];
    assert!(matches!(Dns::parse(cut), Err(Error::InvalidInput)));
}

#[test]
fn parse_rejects_label_running_past_end() {
    // One question whose first label claims 200 bytes that are not there.
    let bytes: Vec<u8> = vec![
        0, 1, 0, 0, 0, 1, 0, 0, 0, 0, 0, 0, // header: one question
        200, b'x', b'y', // truncated label
    ];
    assert!(matches!(Dns::parse(&bytes), Err(Error::InvalidInput)));
}

#[test]
fn parse_ignores_trailing_bytes() {
    let msg = query_message(5, 0x0100, b"a.");
    let mut bytes = msg.compile();
    bytes.extend_from_slice(&[0xFF, 0xFF, 0xFF]);
    let decoded = Dns::parse(&bytes).unwrap();
    assert_eq!(decoded.queries[0].name, b"a.".to_vec());
}
