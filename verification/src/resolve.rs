//! The resolver's pure half: read the name-server address out of the
//! configuration line, build the one-question lookup datagram, and turn a
//! response datagram into addresses. The adapter around the library opens
//! the configuration resource and the `udp:<server>:53` socket and moves the
//! datagrams; every byte it sends or interprets is computed here.

use vstd::prelude::*;
use vstd::slice::{slice_subrange, slice_to_vec};

use crate::addr::{
    find2, format_addr, lemma_find2, lemma_vec_u8_deep_view, parse_dec, spec_format_addr,
    spec_parse_dec, spec_split2, split2, Ipv4Addr, SocketAddrV4, DOT,
};
use crate::dns::{
    lemma_message_round_trip, spec_compile, spec_encodable, spec_parse, spec_parts_fit,
    spec_wf_message, spec_wf_name, Dns, DnsQuery, DnsV, QueryV, AnswerV,
};
use crate::error::Error;

verus! {

/// The flags word of a lookup: the recursion-desired bit alone.
pub const QUERY_FLAGS: u16 = 0x0100;

/// The record type of an IPv4 host address.
pub const TYPE_A: u16 = 1;

/// The internet record class.
pub const CLASS_IN: u16 = 1;

/// An ASCII whitespace byte.
pub open spec fn spec_is_space(b: u8) -> bool {
    b == 32 || 9 <= b <= 13
}

pub open spec fn spec_trim_front(s: Seq<u8>) -> Seq<u8>
    decreases s.len(),
{
    if s.len() > 0 && spec_is_space(s[0]) {
        spec_trim_front(s.skip(1))
    } else {
        s
    }
}

pub open spec fn spec_trim_back(s: Seq<u8>) -> Seq<u8>
    decreases s.len(),
{
    if s.len() > 0 && spec_is_space(s.last()) {
        spec_trim_back(s.drop_last())
    } else {
        s
    }
}

/// `s` without leading and trailing ASCII whitespace.
pub open spec fn spec_trim(s: Seq<u8>) -> Seq<u8> {
    spec_trim_back(spec_trim_front(s))
}

fn is_space(b: u8) -> (r: bool)
    ensures
        r == spec_is_space(b),
{
    b == 32 || (9 <= b && b <= 13)
}

/// Strip leading and trailing ASCII whitespace.
pub fn trim(s: &[u8]) -> (r: &[u8])
    ensures
        r@ == spec_trim(s@),
{
    let mut i: usize = 0;
    proof {
        assert(s@.skip(0) =~= s@);
    }
    while i < s.len() && is_space(s[i])
        invariant
            0 <= i <= s@.len(),
            spec_trim_front(s@) == spec_trim_front(s@.skip(i as int)),
        decreases s@.len() - i,
    {
        proof {
            assert(s@.skip(i as int)[0] == s@[i as int]);
            assert(s@.skip(i as int).skip(1) =~= s@.skip(i as int + 1));
        }
        i = i + 1;
    }
    proof {
        if i < s@.len() {
            assert(s@.skip(i as int)[0] == s@[i as int]);
        }
        assert(spec_trim_front(s@) == s@.skip(i as int));
    }
    let mut j: usize = s.len();
    proof {
        assert(s@.skip(i as int) =~= s@.subrange(i as int, s@.len() as int));
    }
    while j > i && is_space(s[j - 1])
        invariant
            0 <= i <= j <= s@.len(),
            spec_trim_front(s@) == s@.skip(i as int),
            spec_trim_back(s@.skip(i as int)) == spec_trim_back(s@.subrange(i as int, j as int)),
        decreases j,
    {
        proof {
            assert(s@.subrange(i as int, j as int).last() == s@[j - 1 as int]);
            assert(s@.subrange(i as int, j as int).drop_last() =~= s@.subrange(
                i as int,
                j - 1 as int,
            ));
        }
        j = j - 1;
    }
    proof {
        assert(s@.skip(i as int) =~= s@.subrange(i as int, s@.len() as int));
        if j > i {
            assert(s@.subrange(i as int, j as int).last() == s@[j - 1 as int]);
        }
        assert(spec_trim_back(s@.subrange(i as int, j as int)) == s@.subrange(i as int, j as int));
    }
    slice_subrange(s, i, j)
}

/// The octet a configuration token denotes: an unparseable token counts as
/// zero; only the token count is checked.
pub open spec fn spec_octet_or_zero(s: Seq<u8>) -> u8 {
    match spec_parse_dec(s, 255) {
        Some(v) => v as u8,
        None => 0,
    }
}

/// What reading the configuration line yields: the line is trimmed and split
/// on dots; exactly four tokens name the server, anything else is rejected.
pub open spec fn spec_parse_dns_config(cfg: Seq<u8>) -> Option<Ipv4Addr> {
    let parts = spec_split2(spec_trim(cfg), DOT, DOT);
    if parts.len() == 4 {
        Some(
            Ipv4Addr {
                a: spec_octet_or_zero(parts[0]),
                b: spec_octet_or_zero(parts[1]),
                c: spec_octet_or_zero(parts[2]),
                d: spec_octet_or_zero(parts[3]),
            },
        )
    } else {
        None
    }
}

fn octet_or_zero(s: &[u8]) -> (r: u8)
    ensures
        r == spec_octet_or_zero(s@),
{
    match parse_dec(s, 255) {
        Some(v) => v as u8,
        None => 0,
    }
}

/// Read the name server's address from the configuration line.
pub fn parse_dns_config(cfg: &[u8]) -> (r: Result<Ipv4Addr, Error>)
    ensures
        match spec_parse_dns_config(cfg@) {
            Some(ip) => r matches Ok(got) && got == ip,
            None => r matches Err(e) && e == Error::InvalidInput,
        },
{
    let trimmed = trim(cfg);
    let parts = split2(trimmed, DOT, DOT);
    if parts.len() != 4 {
        return Err(Error::InvalidInput);
    }
    proof {
        lemma_vec_u8_deep_view(parts@[0]);
        lemma_vec_u8_deep_view(parts@[1]);
        lemma_vec_u8_deep_view(parts@[2]);
        lemma_vec_u8_deep_view(parts@[3]);
        assert(parts.deep_view()[0] == parts@[0].deep_view());
        assert(parts.deep_view()[1] == parts@[1].deep_view());
        assert(parts.deep_view()[2] == parts@[2].deep_view());
        assert(parts.deep_view()[3] == parts@[3].deep_view());
    }
    Ok(
        Ipv4Addr {
            a: octet_or_zero(parts[0].as_slice()),
            b: octet_or_zero(parts[1].as_slice()),
            c: octet_or_zero(parts[2].as_slice()),
            d: octet_or_zero(parts[3].as_slice()),
        },
    )
}

/// Check that every dot-separated part of a name fits its length prefix.
pub fn parts_fit(s: &[u8]) -> (r: bool)
    ensures
        r == spec_parts_fit(s@),
    decreases s@.len(),
{
    proof {
        lemma_find2(s@, DOT, DOT);
    }
    let p = find2(s, DOT, DOT);
    if p < s.len() {
        p <= 255 && parts_fit(slice_subrange(s, p + 1, s.len()))
    } else {
        s.len() <= 255
    }
}

/// The transaction id a lookup derives from the clock: bits 16 to 31 of the
/// current second's nanosecond count.
pub fn tid_from_nanos(nanos: u32) -> (r: u16)
    ensures
        r == (nanos / 0x1_0000) % 0x1_0000,
{
    ((nanos / 0x1_0000) % 0x1_0000) as u16
}

/// The one-question lookup message for `host` under transaction id `tid`:
/// recursion desired, one A/IN question, no answers.
pub open spec fn spec_query_message(host: Seq<u8>, tid: u16) -> DnsV {
    DnsV {
        transaction_id: tid,
        flags: QUERY_FLAGS,
        queries: seq![QueryV { name: host, q_type: TYPE_A, q_class: CLASS_IN }],
        answers: Seq::empty(),
    }
}

/// Build the lookup datagram for `host`; a host whose labels cannot be
/// length-prefixed is rejected.
pub fn build_query(host: &[u8], tid: u16) -> (r: Result<Vec<u8>, Error>)
    ensures
        spec_parts_fit(host@) ==> (r matches Ok(v) && v@ == spec_compile(
            spec_query_message(host@, tid),
        )),
        !spec_parts_fit(host@) ==> (r matches Err(e) && e == Error::InvalidInput),
{
    if !parts_fit(host) {
        return Err(Error::InvalidInput);
    }
    let mut queries: Vec<DnsQuery> = Vec::new();
    queries.push(DnsQuery { name: slice_to_vec(host), q_type: TYPE_A, q_class: CLASS_IN });
    let msg = Dns { transaction_id: tid, flags: QUERY_FLAGS, queries, answers: Vec::new() };
    proof {
        assert(msg@.queries =~= spec_query_message(host@, tid).queries);
        assert(msg@.answers =~= spec_query_message(host@, tid).answers);
        assert(msg@ =~= spec_query_message(host@, tid));
        assert(spec_encodable(msg@));
    }
    Ok(msg.compile())
}

/// Decoding the lookup datagram built for a canonical host reproduces the
/// question exactly: the same name, the host-address type and the internet
/// class, under the same transaction id and flags.
pub proof fn lemma_lookup_round_trip(host: Seq<u8>, tid: u16)
    requires
        spec_wf_name(host),
    ensures
        spec_parse(spec_compile(spec_query_message(host, tid))) == Some(
            spec_query_message(host, tid),
        ),
{
    let m = spec_query_message(host, tid);
    assert(m.queries.len() == 1);
    assert(m.queries[0].name == host);
    assert(spec_wf_message(m));
    lemma_message_round_trip(m);
}

/// The path of the name server's datagram socket: `udp:<server>:53`.
pub open spec fn spec_dns_server_path(ip: Ipv4Addr) -> Seq<u8> {
    seq![117u8, 100u8, 112u8, 58u8] + spec_format_addr(SocketAddrV4 { ip, port: 53 })
}

/// Format the path of the name server's datagram socket.
pub fn dns_server_path(ip: &Ipv4Addr) -> (r: Vec<u8>)
    ensures
        r@ == spec_dns_server_path(*ip),
{
    let mut out: Vec<u8> = Vec::new();
    out.push(117);
    out.push(100);
    out.push(112);
    out.push(58);
    let mut addr = format_addr(&SocketAddrV4 { ip: *ip, port: 53 });
    out.append(&mut addr);
    proof {
        assert(out@ =~= spec_dns_server_path(*ip));
    }
    out
}

/// An answer the resolver consumes: an internet-class host-address record
/// whose data is exactly the four octets of an IPv4 address.
pub open spec fn spec_a_record(a: AnswerV) -> bool {
    a.a_type == TYPE_A && a.a_class == CLASS_IN && a.data.len() == 4
}

/// The address an A/IN answer carries, with port zero.
pub open spec fn spec_answer_addr(a: AnswerV) -> SocketAddrV4 {
    SocketAddrV4 {
        ip: Ipv4Addr { a: a.data[0], b: a.data[1], c: a.data[2], d: a.data[3] },
        port: 0,
    }
}

/// The addresses of the A/IN answers of a response, in answer order.
pub open spec fn spec_addresses(ans: Seq<AnswerV>) -> Seq<SocketAddrV4>
    decreases ans.len(),
{
    if ans.len() == 0 {
        Seq::empty()
    } else {
        let rest = spec_addresses(ans.skip(1));
        if spec_a_record(ans[0]) {
            seq![spec_answer_addr(ans[0])] + rest
        } else {
            rest
        }
    }
}

/// How many answers of the list the resolver consumes.
pub open spec fn spec_a_count(ans: Seq<AnswerV>) -> int
    decreases ans.len(),
{
    if ans.len() == 0 {
        0
    } else {
        (if spec_a_record(ans[0]) {
            1int
        } else {
            0int
        }) + spec_a_count(ans.skip(1))
    }
}

/// A response with N consumable answers yields exactly N addresses: none is
/// dropped and none is invented.
pub proof fn lemma_addresses_count(ans: Seq<AnswerV>)
    ensures
        spec_addresses(ans).len() == spec_a_count(ans),
    decreases ans.len(),
{
    if ans.len() > 0 {
        lemma_addresses_count(ans.skip(1));
    }
}

/// When every answer is a consumable A/IN record, the resolver yields one
/// address per answer, in answer order.
pub proof fn lemma_addresses_in_answer_order(ans: Seq<AnswerV>)
    requires
        forall|i: int| 0 <= i < ans.len() ==> spec_a_record(#[trigger] ans[i]),
    ensures
        spec_addresses(ans).len() == ans.len(),
        forall|i: int|
            0 <= i < ans.len() ==> spec_addresses(ans)[i] == spec_answer_addr(#[trigger] ans[i]),
    decreases ans.len(),
{
    if ans.len() > 0 {
        assert forall|i: int| 0 <= i < ans.skip(1).len() implies spec_a_record(
            #[trigger] ans.skip(1)[i],
        ) by {
            assert(ans.skip(1)[i] == ans[i + 1]);
        }
        lemma_addresses_in_answer_order(ans.skip(1));
        assert forall|i: int| 0 <= i < ans.len() implies spec_addresses(ans)[i]
            == spec_answer_addr(#[trigger] ans[i]) by {
            if i > 0 {
                assert(ans.skip(1)[i - 1] == ans[i]);
            }
        }
    }
}

/// Decode a response datagram into the addresses it answers with: exactly
/// the A/IN answers with four data bytes, in answer order, each with port
/// zero; a message that does not decode is rejected as invalid input, never
/// silently shortened.
pub fn resolve_response(d: &[u8]) -> (r: Result<Vec<SocketAddrV4>, Error>)
    ensures
        match spec_parse(d@) {
            Some(m) => r matches Ok(v) && v@ == spec_addresses(m.answers),
            None => r matches Err(e) && e == Error::InvalidInput,
        },
{
    let msg = match Dns::parse(d) {
        Ok(m) => m,
        Err(e) => {
            return Err(e);
        },
    };
    let ghost ansv = msg@.answers;
    let mut out: Vec<SocketAddrV4> = Vec::new();
    let mut i: usize = 0;
    proof {
        assert(ansv.skip(0) =~= ansv);
        assert(out@ + spec_addresses(ansv) =~= spec_addresses(ansv));
    }
    while i < msg.answers.len()
        invariant
            0 <= i <= msg.answers@.len(),
            ansv == msg@.answers,
            ansv.len() == msg.answers@.len(),
            out@ + spec_addresses(ansv.skip(i as int)) == spec_addresses(ansv),
        decreases msg.answers@.len() - i,
    {
        proof {
            assert(msg@.answers[i as int] == msg.answers@[i as int]@);
            assert(ansv.skip(i as int)[0] == ansv[i as int]);
            assert(ansv.skip(i as int).skip(1) =~= ansv.skip(i as int + 1));
        }
        let a = &msg.answers[i];
        if a.a_type == TYPE_A && a.a_class == CLASS_IN && a.data.len() == 4 {
            out.push(
                SocketAddrV4 {
                    ip: Ipv4Addr { a: a.data[0], b: a.data[1], c: a.data[2], d: a.data[3] },
                    port: 0,
                },
            );
            proof {
                assert(out@ + spec_addresses(ansv.skip(i as int + 1)) =~= spec_addresses(ansv));
            }
        } else {
            proof {
                assert(out@ + spec_addresses(ansv.skip(i as int + 1)) =~= spec_addresses(ansv));
            }
        }
        i = i + 1;
    }
    proof {
        assert(ansv.skip(ansv.len() as int) =~= Seq::<AnswerV>::empty());
        assert(out@ =~= spec_addresses(ansv));
    }
    Ok(out)
}

/// Everything the resolver computes before any datagram moves: the server
/// socket path read from the configuration line, and the lookup datagram for
/// `host` under `tid`. A configuration line without exactly four octets, or
/// a host whose labels cannot be length-prefixed, is invalid input.
pub fn lookup_request(host: &[u8], tid: u16, cfg: &[u8]) -> (r: Result<
    (Vec<u8>, Vec<u8>),
    Error,
>)
    ensures
        match spec_parse_dns_config(cfg@) {
            Some(ip) => {
                if spec_parts_fit(host@) {
                    r matches Ok(p) && p.0@ == spec_dns_server_path(ip) && p.1@ == spec_compile(
                        spec_query_message(host@, tid),
                    )
                } else {
                    r matches Err(e) && e == Error::InvalidInput
                }
            },
            None => r matches Err(e) && e == Error::InvalidInput,
        },
{
    let ip = match parse_dns_config(cfg) {
        Ok(ip) => ip,
        Err(e) => {
            return Err(e);
        },
    };
    let packet = match build_query(host, tid) {
        Ok(p) => p,
        Err(e) => {
            return Err(e);
        },
    };
    Ok((dns_server_path(&ip), packet))
}

} // verus!
