//! IPv4 socket addresses, their decimal text form inside scheme paths, and
//! the tokenizing rules used to read peer and local addresses back out of a
//! resource's resolved path.

use vstd::prelude::*;
use vstd::slice::{slice_subrange, slice_to_vec};

verus! {

/// The byte `'.'`.
pub const DOT: u8 = 46;

/// The byte `'/'`.
pub const SLASH: u8 = 47;

/// The byte `':'`.
pub const COLON: u8 = 58;

/// An IPv4 address as four octets.
#[derive(Clone, Copy, PartialEq, Eq, Structural, Debug)]
pub struct Ipv4Addr {
    pub a: u8,
    pub b: u8,
    pub c: u8,
    pub d: u8,
}

impl Ipv4Addr {
    pub fn new(a: u8, b: u8, c: u8, d: u8) -> (r: Ipv4Addr)
        ensures
            r == (Ipv4Addr { a, b, c, d }),
    {
        Ipv4Addr { a, b, c, d }
    }

    /// The all-zero address, the fallback when a path holds no parseable host.
    pub fn unspecified() -> (r: Ipv4Addr)
        ensures
            r == (Ipv4Addr { a: 0, b: 0, c: 0, d: 0 }),
    {
        Ipv4Addr { a: 0, b: 0, c: 0, d: 0 }
    }
}

/// An IPv4 address together with a port.
#[derive(Clone, Copy, PartialEq, Eq, Structural, Debug)]
pub struct SocketAddrV4 {
    pub ip: Ipv4Addr,
    pub port: u16,
}

impl SocketAddrV4 {
    pub fn new(ip: Ipv4Addr, port: u16) -> (r: SocketAddrV4)
        ensures
            r == (SocketAddrV4 { ip, port }),
    {
        SocketAddrV4 { ip, port }
    }
}

/// Decimal digits of `n`, most significant first, without leading zeros.
pub open spec fn spec_dec(n: int) -> Seq<u8>
    recommends
        n >= 0,
    decreases n,
{
    if n < 10 {
        seq![(48 + if 0 <= n < 10 { n } else { 0 }) as u8]
    } else {
        spec_dec(n / 10) + seq![(48 + n % 10) as u8]
    }
}

/// Append the decimal digits of `n` to `out`.
pub fn push_dec_u16(out: &mut Vec<u8>, n: u16)
    ensures
        final(out)@ == old(out)@ + spec_dec(n as int),
    decreases n,
{
    if n < 10 {
        out.push(48 + n as u8);
        assert(out@ =~= old(out)@ + spec_dec(n as int));
    } else {
        push_dec_u16(out, n / 10);
        out.push(48 + (n % 10) as u8);
        assert(out@ =~= old(out)@ + spec_dec(n as int));
    }
}

/// The textual form `a.b.c.d:port` of a socket address.
pub open spec fn spec_format_addr(sa: SocketAddrV4) -> Seq<u8> {
    spec_dec(sa.ip.a as int) + seq![DOT] + spec_dec(sa.ip.b as int) + seq![DOT] + spec_dec(
        sa.ip.c as int,
    ) + seq![DOT] + spec_dec(sa.ip.d as int) + seq![COLON] + spec_dec(sa.port as int)
}

/// Format a socket address as the `a.b.c.d:port` byte string used inside
/// scheme paths and duplicate commands.
pub fn format_addr(sa: &SocketAddrV4) -> (r: Vec<u8>)
    ensures
        r@ == spec_format_addr(*sa),
{
    let mut out: Vec<u8> = Vec::new();
    push_dec_u16(&mut out, sa.ip.a as u16);
    out.push(DOT);
    push_dec_u16(&mut out, sa.ip.b as u16);
    out.push(DOT);
    push_dec_u16(&mut out, sa.ip.c as u16);
    out.push(DOT);
    push_dec_u16(&mut out, sa.ip.d as u16);
    out.push(COLON);
    push_dec_u16(&mut out, sa.port);
    assert(out@ =~= spec_format_addr(*sa));
    out
}

/// Every byte of `s` is a decimal digit.
pub open spec fn spec_is_digits(s: Seq<u8>) -> bool {
    forall|i: int| 0 <= i < s.len() ==> 48 <= #[trigger] s[i] <= 57
}

/// The number the digit string `s` denotes.
pub open spec fn spec_dec_value(s: Seq<u8>) -> int
    decreases s.len(),
{
    if s.len() == 0 {
        0
    } else {
        spec_dec_value(s.drop_last()) * 10 + (s.last() - 48)
    }
}

pub proof fn lemma_dec_value_nonneg(s: Seq<u8>)
    requires
        spec_is_digits(s),
    ensures
        spec_dec_value(s) >= 0,
    decreases s.len(),
{
    if s.len() > 0 {
        assert(spec_is_digits(s.drop_last()));
        lemma_dec_value_nonneg(s.drop_last());
    }
}

/// What parsing a bounded decimal returns: the value of a non-empty digit
/// string when it does not exceed `max`, nothing otherwise.
pub open spec fn spec_parse_dec(s: Seq<u8>, max: int) -> Option<u32>
    recommends
        0 <= max <= u32::MAX,
{
    if s.len() > 0 && spec_is_digits(s) && 0 <= spec_dec_value(s) <= max {
        Some(spec_dec_value(s) as u32)
    } else {
        None
    }
}

/// Parse a non-empty decimal digit string worth at most `max`.
pub fn parse_dec(s: &[u8], max: u32) -> (r: Option<u32>)
    ensures
        r == spec_parse_dec(s@, max as int),
{
    if s.len() == 0 {
        return None;
    }
    let mut i: usize = 0;
    let mut acc: u64 = 0;
    let mut over: bool = false;
    while i < s.len()
        invariant
            0 <= i <= s@.len(),
            spec_is_digits(s@.subrange(0, i as int)),
            !over ==> acc as int == spec_dec_value(s@.subrange(0, i as int)) && acc <= max,
            over ==> spec_dec_value(s@.subrange(0, i as int)) > max,
        decreases s@.len() - i,
    {
        let b = s[i];
        if b < 48 || b > 57 {
            assert(!(48 <= s@[i as int] <= 57));
            return None;
        }
        proof {
            assert(s@.subrange(0, i + 1 as int).drop_last() =~= s@.subrange(0, i as int));
            assert(s@.subrange(0, i + 1 as int).last() == s@[i as int]);
            lemma_dec_value_nonneg(s@.subrange(0, i as int));
        }
        if !over {
            let a2: u64 = acc * 10 + (b - 48) as u64;
            if a2 > max as u64 {
                over = true;
            } else {
                acc = a2;
            }
        }
        i = i + 1;
    }
    proof {
        assert(s@.subrange(0, s@.len() as int) =~= s@);
    }
    if over {
        None
    } else {
        Some(acc as u32)
    }
}

/// First position in `s` holding `c1` or `c2`, or `s.len()` if neither occurs.
pub open spec fn spec_find2(s: Seq<u8>, c1: u8, c2: u8) -> int
    decreases s.len(),
{
    if s.len() == 0 {
        0
    } else if s[0] == c1 || s[0] == c2 {
        0
    } else {
        1 + spec_find2(s.skip(1), c1, c2)
    }
}

pub proof fn lemma_find2(s: Seq<u8>, c1: u8, c2: u8)
    ensures
        0 <= spec_find2(s, c1, c2) <= s.len(),
        spec_find2(s, c1, c2) < s.len() ==> (s[spec_find2(s, c1, c2)] == c1 || s[spec_find2(
            s,
            c1,
            c2,
        )] == c2),
        forall|j: int| 0 <= j < spec_find2(s, c1, c2) ==> s[j] != c1 && s[j] != c2,
    decreases s.len(),
{
    if s.len() == 0 {
    } else if s[0] == c1 || s[0] == c2 {
    } else {
        lemma_find2(s.skip(1), c1, c2);
        let p = spec_find2(s, c1, c2);
        assert forall|j: int| 0 <= j < p implies s[j] != c1 && s[j] != c2 by {
            if j >= 1 {
                assert(s.skip(1)[j - 1] == s[j]);
            }
        }
    }
}

/// Find the first occurrence of `c1` or `c2` in `s`, or `s.len()`.
pub fn find2(s: &[u8], c1: u8, c2: u8) -> (r: usize)
    ensures
        r as int == spec_find2(s@, c1, c2),
{
    proof {
        lemma_find2(s@, c1, c2);
    }
    let ghost p = spec_find2(s@, c1, c2);
    let mut i: usize = 0;
    while i < s.len()
        invariant
            0 <= i <= s@.len(),
            p == spec_find2(s@, c1, c2),
            0 <= p <= s@.len(),
            p < s@.len() ==> (s@[p] == c1 || s@[p] == c2),
            forall|j: int| 0 <= j < p ==> s@[j] != c1 && s@[j] != c2,
            forall|j: int| 0 <= j < i ==> s@[j] != c1 && s@[j] != c2,
        decreases s@.len() - i,
    {
        let b = s[i];
        if b == c1 || b == c2 {
            assert(i as int == p);
            return i;
        }
        i = i + 1;
    }
    assert(i as int == p);
    i
}

/// The tokens of `s` split on `c1` and `c2`: always at least one token, empty
/// tokens kept, exactly as the standard splitting iterator yields them.
pub open spec fn spec_split2(s: Seq<u8>, c1: u8, c2: u8) -> Seq<Seq<u8>>
    decreases s.len(),
{
    let p = spec_find2(s, c1, c2);
    if 0 <= p < s.len() {
        seq![s.take(p)] + spec_split2(s.skip(p + 1), c1, c2)
    } else {
        seq![s]
    }
}

/// Split `s` on the separators `c1` and `c2`.
pub fn split2(s: &[u8], c1: u8, c2: u8) -> (r: Vec<Vec<u8>>)
    ensures
        r.deep_view() == spec_split2(s@, c1, c2),
    decreases s@.len(),
{
    proof {
        lemma_find2(s@, c1, c2);
    }
    let p = find2(s, c1, c2);
    if p < s.len() {
        let head = slice_to_vec(slice_subrange(s, 0, p));
        let rest = slice_subrange(s, p + 1, s.len());
        let mut r = split2(rest, c1, c2);
        let ghost tail_dv = r.deep_view();
        let ghost tail_vs = r@;
        r.insert(0, head);
        proof {
            assert(r@ == tail_vs.insert(0, head));
            assert(r.deep_view()[0] == head@);
            assert forall|i: int| 1 <= i < r@.len() implies r.deep_view()[i] == tail_dv[i - 1] by {
                assert(r@[i] == tail_vs[i - 1]);
            }
            assert(s@.subrange(0, p as int) =~= s@.take(p as int));
            assert(rest@ =~= s@.skip(p as int + 1));
            assert(r.deep_view() =~= seq![s@.take(p as int)] + spec_split2(
                s@.skip(p as int + 1),
                c1,
                c2,
            ));
        }
        r
    } else {
        let mut r: Vec<Vec<u8>> = Vec::new();
        r.push(slice_to_vec(s));
        proof {
            assert(r.deep_view().len() == 1);
            assert(r.deep_view()[0] == s@);
            assert(r.deep_view() =~= spec_split2(s@, c1, c2));
        }
        r
    }
}

pub proof fn lemma_vec_u8_deep_view(v: Vec<u8>)
    ensures
        v.deep_view() == v@,
{
    assert(v.deep_view() =~= v@);
}

/// Token `k` of `toks`, or the empty token when there is no such position.
pub open spec fn spec_token(toks: Seq<Seq<u8>>, k: int) -> Seq<u8> {
    if 0 <= k < toks.len() {
        toks[k]
    } else {
        Seq::empty()
    }
}

/// What parsing a dotted quad returns: four dot-separated decimal octets, or
/// nothing for any other shape.
pub open spec fn spec_parse_ipv4(s: Seq<u8>) -> Option<Ipv4Addr> {
    let parts = spec_split2(s, DOT, DOT);
    if parts.len() == 4 {
        match (
            spec_parse_dec(parts[0], 255),
            spec_parse_dec(parts[1], 255),
            spec_parse_dec(parts[2], 255),
            spec_parse_dec(parts[3], 255),
        ) {
            (Some(a), Some(b), Some(c), Some(d)) => Some(
                Ipv4Addr { a: a as u8, b: b as u8, c: c as u8, d: d as u8 },
            ),
            _ => None,
        }
    } else {
        None
    }
}

/// Parse a dotted-quad IPv4 address.
pub fn parse_ipv4(s: &[u8]) -> (r: Option<Ipv4Addr>)
    ensures
        r == spec_parse_ipv4(s@),
{
    let parts = split2(s, DOT, DOT);
    if parts.len() != 4 {
        return None;
    }
    proof {
        lemma_vec_u8_deep_view(parts@[0]);
        lemma_vec_u8_deep_view(parts@[1]);
        lemma_vec_u8_deep_view(parts@[2]);
        lemma_vec_u8_deep_view(parts@[3]);
        assert(parts.deep_view()[0] == parts@[0].deep_view());
        assert(parts.deep_view()[1] == parts@[1].deep_view());
        assert(parts.deep_view()[2] == parts@[2].deep_view());
        assert(parts.deep_view()[3] == parts@[3].deep_view());
    }
    let pa = parse_dec(parts[0].as_slice(), 255);
    let pb = parse_dec(parts[1].as_slice(), 255);
    let pc = parse_dec(parts[2].as_slice(), 255);
    let pd = parse_dec(parts[3].as_slice(), 255);
    match (pa, pb, pc, pd) {
        (Some(a), Some(b), Some(c), Some(d)) => Some(
            Ipv4Addr { a: a as u8, b: b as u8, c: c as u8, d: d as u8 },
        ),
        _ => None,
    }
}

/// The peer address encoded in a resolved path: the token after the scheme is
/// the host, the next one the port, each falling back to zero when absent or
/// unparseable.
pub open spec fn spec_path_to_peer_addr(path: Seq<u8>) -> SocketAddrV4 {
    let toks = spec_split2(path, COLON, SLASH);
    let ip = match spec_parse_ipv4(spec_token(toks, 1)) {
        Some(ip) => ip,
        None => Ipv4Addr { a: 0, b: 0, c: 0, d: 0 },
    };
    let port = match spec_parse_dec(spec_token(toks, 2), 65535) {
        Some(p) => p as u16,
        None => 0,
    };
    SocketAddrV4 { ip, port }
}

/// Recover the peer address from a resource's resolved path.
pub fn path_to_peer_addr(path: &[u8]) -> (r: SocketAddrV4)
    ensures
        r == spec_path_to_peer_addr(path@),
{
    let toks = split2(path, COLON, SLASH);
    let empty: Vec<u8> = Vec::new();
    let host_tok: &Vec<u8> = if toks.len() > 1 {
        &toks[1]
    } else {
        &empty
    };
    let port_tok: &Vec<u8> = if toks.len() > 2 {
        &toks[2]
    } else {
        &empty
    };
    proof {
        lemma_vec_u8_deep_view(*host_tok);
        lemma_vec_u8_deep_view(*port_tok);
        let toks_dv = toks.deep_view();
        if toks@.len() > 1 {
            assert(toks_dv[1] == toks@[1].deep_view());
        }
        if toks@.len() > 2 {
            assert(toks_dv[2] == toks@[2].deep_view());
        }
        assert(host_tok@ == spec_token(toks_dv, 1));
        assert(port_tok@ == spec_token(toks_dv, 2));
    }
    let ip = match parse_ipv4(host_tok.as_slice()) {
        Some(ip) => ip,
        None => Ipv4Addr::unspecified(),
    };
    let port: u16 = match parse_dec(port_tok.as_slice(), 65535) {
        Some(p) => p as u16,
        None => 0,
    };
    SocketAddrV4 { ip, port }
}

/// The local address encoded in a resolved path: only the port (the fourth
/// token) is recorded; the host is always the unspecified address.
pub open spec fn spec_path_to_local_addr(path: Seq<u8>) -> SocketAddrV4 {
    let toks = spec_split2(path, COLON, SLASH);
    let port = match spec_parse_dec(spec_token(toks, 3), 65535) {
        Some(p) => p as u16,
        None => 0,
    };
    SocketAddrV4 { ip: Ipv4Addr { a: 0, b: 0, c: 0, d: 0 }, port }
}

/// Recover the local address from a resource's resolved path.
pub fn path_to_local_addr(path: &[u8]) -> (r: SocketAddrV4)
    ensures
        r == spec_path_to_local_addr(path@),
{
    let toks = split2(path, COLON, SLASH);
    let empty: Vec<u8> = Vec::new();
    let port_tok: &Vec<u8> = if toks.len() > 3 {
        &toks[3]
    } else {
        &empty
    };
    proof {
        lemma_vec_u8_deep_view(*port_tok);
        let toks_dv = toks.deep_view();
        if toks@.len() > 3 {
            assert(toks_dv[3] == toks@[3].deep_view());
        }
        assert(port_tok@ == spec_token(toks_dv, 3));
    }
    let port: u16 = match parse_dec(port_tok.as_slice(), 65535) {
        Some(p) => p as u16,
        None => 0,
    };
    SocketAddrV4 { ip: Ipv4Addr::unspecified(), port }
}

} // verus!
