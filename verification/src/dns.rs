//! The DNS wire codec: pure encoding and decoding of query/response messages.
//!
//! A message is a 12-byte header (transaction id, flags, and four 16-bit
//! counts, all big-endian) followed by the questions and then the answers.
//! A name travels as a sequence of length-prefixed labels closed by a zero
//! length; in its textual form every label is followed by a dot, so the
//! canonical text of a name ends with a dot and the empty text names the root.

use vstd::prelude::*;
use vstd::slice::{slice_subrange, slice_to_vec};

use crate::addr::{find2, lemma_find2, spec_find2, DOT};
use crate::error::Error;

verus! {

/// One question: a name, a record type and a record class.
pub struct DnsQuery {
    pub name: Vec<u8>,
    pub q_type: u16,
    pub q_class: u16,
}

/// One answer: a name, type, class, time-to-live and the record data.
pub struct DnsAnswer {
    pub name: Vec<u8>,
    pub a_type: u16,
    pub a_class: u16,
    pub ttl: u32,
    pub data: Vec<u8>,
}

/// A whole message: transaction id, flags, questions and answers in order.
pub struct Dns {
    pub transaction_id: u16,
    pub flags: u16,
    pub queries: Vec<DnsQuery>,
    pub answers: Vec<DnsAnswer>,
}

/// The mathematical value of a question.
#[verifier::ext_equal]
pub struct QueryV {
    pub name: Seq<u8>,
    pub q_type: u16,
    pub q_class: u16,
}

/// The mathematical value of an answer.
#[verifier::ext_equal]
pub struct AnswerV {
    pub name: Seq<u8>,
    pub a_type: u16,
    pub a_class: u16,
    pub ttl: u32,
    pub data: Seq<u8>,
}

/// The mathematical value of a message.
#[verifier::ext_equal]
pub struct DnsV {
    pub transaction_id: u16,
    pub flags: u16,
    pub queries: Seq<QueryV>,
    pub answers: Seq<AnswerV>,
}

impl View for DnsQuery {
    type V = QueryV;

    open spec fn view(&self) -> QueryV {
        QueryV { name: self.name@, q_type: self.q_type, q_class: self.q_class }
    }
}

impl DeepView for DnsQuery {
    type V = QueryV;

    open spec fn deep_view(&self) -> QueryV {
        self@
    }
}

impl View for DnsAnswer {
    type V = AnswerV;

    open spec fn view(&self) -> AnswerV {
        AnswerV {
            name: self.name@,
            a_type: self.a_type,
            a_class: self.a_class,
            ttl: self.ttl,
            data: self.data@,
        }
    }
}

impl DeepView for DnsAnswer {
    type V = AnswerV;

    open spec fn deep_view(&self) -> AnswerV {
        self@
    }
}

impl View for Dns {
    type V = DnsV;

    open spec fn view(&self) -> DnsV {
        DnsV {
            transaction_id: self.transaction_id,
            flags: self.flags,
            queries: self.queries.deep_view(),
            answers: self.answers.deep_view(),
        }
    }
}

/// Every dot-separated part of `s` is short enough for a length prefix.
pub open spec fn spec_parts_fit(s: Seq<u8>) -> bool
    decreases s.len(),
{
    let p = spec_find2(s, DOT, DOT);
    if 0 <= p < s.len() {
        p <= 255 && spec_parts_fit(s.skip(p + 1))
    } else {
        s.len() <= 255
    }
}

/// A canonical name: either empty (the root) or a run of labels of one to 63
/// bytes, each closed by a dot.
pub open spec fn spec_wf_name(s: Seq<u8>) -> bool
    decreases s.len(),
{
    if s.len() == 0 {
        true
    } else {
        let p = spec_find2(s, DOT, DOT);
        1 <= p <= 63 && p < s.len() && spec_wf_name(s.skip(p + 1))
    }
}

pub proof fn lemma_wf_name_parts_fit(s: Seq<u8>)
    requires
        spec_wf_name(s),
    ensures
        spec_parts_fit(s),
    decreases s.len(),
{
    if s.len() == 0 {
        lemma_find2(s, DOT, DOT);
    } else {
        let p = spec_find2(s, DOT, DOT);
        lemma_wf_name_parts_fit(s.skip(p + 1));
    }
}

/// The wire form of a name: each dot-separated part as a length byte and its
/// bytes. A canonical name's final empty part becomes the closing zero.
pub open spec fn spec_encode_name(s: Seq<u8>) -> Seq<u8>
    decreases s.len(),
{
    let p = spec_find2(s, DOT, DOT);
    if 0 <= p < s.len() {
        seq![(p % 256) as u8] + s.take(p) + spec_encode_name(s.skip(p + 1))
    } else {
        seq![(s.len() % 256) as u8] + s
    }
}

/// Append `s[from .. to]` to `out`.
pub fn push_range(out: &mut Vec<u8>, s: &[u8], from: usize, to: usize)
    requires
        from <= to <= s@.len(),
    ensures
        final(out)@ == old(out)@ + s@.subrange(from as int, to as int),
{
    out.extend_from_slice(slice_subrange(s, from, to));
}

/// Append the wire form of a name to `out`.
pub fn encode_name_into(out: &mut Vec<u8>, name: &[u8])
    requires
        spec_parts_fit(name@),
    ensures
        final(out)@ == old(out)@ + spec_encode_name(name@),
    decreases name@.len(),
{
    proof {
        lemma_find2(name@, DOT, DOT);
    }
    let p = find2(name, DOT, DOT);
    if p < name.len() {
        out.push(p as u8);
        push_range(out, name, 0, p);
        encode_name_into(out, slice_subrange(name, p + 1, name.len()));
        assert(out@ =~= old(out)@ + spec_encode_name(name@));
    } else {
        out.push(name.len() as u8);
        push_range(out, name, 0, name.len());
        assert(out@ =~= old(out)@ + spec_encode_name(name@));
    }
}

/// The two big-endian bytes of `v`.
pub open spec fn spec_be16(v: u16) -> Seq<u8> {
    seq![(v / 256) as u8, (v % 256) as u8]
}

/// The four big-endian bytes of `v`.
pub open spec fn spec_be32(v: u32) -> Seq<u8> {
    seq![
        (v / 0x100_0000) as u8,
        ((v / 0x1_0000) % 256) as u8,
        ((v / 256) % 256) as u8,
        (v % 256) as u8,
    ]
}

pub fn push_be16(out: &mut Vec<u8>, v: u16)
    ensures
        final(out)@ == old(out)@ + spec_be16(v),
{
    out.push((v / 256) as u8);
    out.push((v % 256) as u8);
    assert(out@ =~= old(out)@ + spec_be16(v));
}

pub fn push_be32(out: &mut Vec<u8>, v: u32)
    ensures
        final(out)@ == old(out)@ + spec_be32(v),
{
    out.push((v / 0x100_0000) as u8);
    out.push(((v / 0x1_0000) % 256) as u8);
    out.push(((v / 256) % 256) as u8);
    out.push((v % 256) as u8);
    assert(out@ =~= old(out)@ + spec_be32(v));
}

/// The big-endian 16-bit value at `pos`.
pub open spec fn spec_read_u16(d: Seq<u8>, pos: int) -> u16
    recommends
        0 <= pos,
        pos + 2 <= d.len(),
{
    (d[pos] * 256 + d[pos + 1]) as u16
}

/// The big-endian 32-bit value at `pos`.
pub open spec fn spec_read_u32(d: Seq<u8>, pos: int) -> u32
    recommends
        0 <= pos,
        pos + 4 <= d.len(),
{
    (d[pos] * 0x100_0000 + d[pos + 1] * 0x1_0000 + d[pos + 2] * 256 + d[pos + 3]) as u32
}

pub fn read_u16(d: &[u8], pos: usize) -> (r: u16)
    requires
        pos + 2 <= d@.len(),
    ensures
        r == spec_read_u16(d@, pos as int),
{
    d[pos] as u16 * 256 + d[pos + 1] as u16
}

pub fn read_u32(d: &[u8], pos: usize) -> (r: u32)
    requires
        pos + 4 <= d@.len(),
    ensures
        r == spec_read_u32(d@, pos as int),
{
    d[pos] as u32 * 0x100_0000 + d[pos + 1] as u32 * 0x1_0000 + d[pos + 2] as u32 * 256 + d[pos
        + 3] as u32
}

/// Reading back two big-endian bytes yields the value they encode.
pub proof fn lemma_read_be16(d: Seq<u8>, pos: int, v: u16)
    requires
        0 <= pos,
        pos + 2 <= d.len(),
        d.subrange(pos, pos + 2) == spec_be16(v),
    ensures
        spec_read_u16(d, pos) == v,
{
    assert(d[pos] == spec_be16(v)[0]);
    assert(d[pos + 1] == spec_be16(v)[1]);
}

/// Reading back four big-endian bytes yields the value they encode.
pub proof fn lemma_read_be32(d: Seq<u8>, pos: int, v: u32)
    requires
        0 <= pos,
        pos + 4 <= d.len(),
        d.subrange(pos, pos + 4) == spec_be32(v),
    ensures
        spec_read_u32(d, pos) == v,
{
    assert(d[pos] == spec_be32(v)[0]);
    assert(d[pos + 1] == spec_be32(v)[1]);
    assert(d[pos + 2] == spec_be32(v)[2]);
    assert(d[pos + 3] == spec_be32(v)[3]);
}

/// What parsing a name at `pos` returns: the name in its dotted textual form
/// and the position just past its closing zero, or nothing on truncation.
pub open spec fn spec_parse_name(d: Seq<u8>, pos: int) -> Option<(Seq<u8>, int)>
    decreases d.len() - pos,
{
    if pos < 0 || pos >= d.len() {
        None
    } else if d[pos] == 0 {
        Some((Seq::empty(), pos + 1))
    } else if pos + 1 + d[pos] <= d.len() {
        match spec_parse_name(d, pos + 1 + d[pos]) {
            Some((rest, end)) => Some(
                (d.subrange(pos + 1, pos + 1 + d[pos]) + seq![DOT] + rest, end),
            ),
            None => None,
        }
    } else {
        None
    }
}

/// A parsed name sits strictly inside the data.
pub proof fn lemma_parse_name_bounds(d: Seq<u8>, pos: int)
    requires
        spec_parse_name(d, pos) is Some,
    ensures
        0 <= pos < spec_parse_name(d, pos)->Some_0.1 <= d.len(),
    decreases d.len() - pos,
{
    if !(pos < 0 || pos >= d.len()) && d[pos] != 0 && pos + 1 + d[pos] <= d.len() {
        lemma_parse_name_bounds(d, pos + 1 + d[pos]);
    }
}

/// Parse a name at `pos`.
pub fn parse_name(d: &[u8], pos: usize) -> (r: Result<(Vec<u8>, usize), Error>)
    ensures
        match spec_parse_name(d@, pos as int) {
            Some(v) => r matches Ok(p) && p.0@ == v.0 && p.1 as int == v.1,
            None => r matches Err(e) && e == Error::InvalidInput,
        },
    decreases d@.len() - pos,
{
    if pos >= d.len() {
        return Err(Error::InvalidInput);
    }
    let l = d[pos];
    if l == 0 {
        return Ok((Vec::new(), pos + 1));
    }
    if d.len() - pos - 1 < l as usize {
        return Err(Error::InvalidInput);
    }
    let end0 = pos + 1 + l as usize;
    match parse_name(d, end0) {
        Ok(rest) => {
            let mut label = slice_to_vec(slice_subrange(d, pos + 1, end0));
            label.push(DOT);
            let mut tail = rest.0;
            label.append(&mut tail);
            proof {
                let v = spec_parse_name(d@, pos as int)->Some_0;
                assert(label@ =~= v.0);
            }
            Ok((label, rest.1))
        },
        Err(e) => Err(e),
    }
}

/// Parsing the wire form of a canonical name recovers the name exactly and
/// stops just past it, whatever bytes surround it.
pub proof fn lemma_parse_encode_name(pre: Seq<u8>, name: Seq<u8>, suf: Seq<u8>)
    requires
        spec_wf_name(name),
    ensures
        spec_parse_name(pre + spec_encode_name(name) + suf, pre.len() as int) == Some(
            (name, (pre.len() + name.len() + 1) as int),
        ),
    decreases name.len(),
{
    lemma_find2(name, DOT, DOT);
    let d = pre + spec_encode_name(name) + suf;
    let pos = pre.len() as int;
    if name.len() == 0 {
        assert(spec_encode_name(name) =~= seq![0u8]);
        assert(d[pos] == 0);
    } else {
        let p = spec_find2(name, DOT, DOT);
        let label = name.take(p);
        let rest = name.skip(p + 1);
        let enc_rest = spec_encode_name(rest);
        assert(spec_encode_name(name) == seq![(p % 256) as u8] + label + enc_rest);
        assert(d[pos] == p as u8);
        assert(d[pos] != 0);
        assert(pos + 1 + d[pos] == pre.len() + 1 + p);
        let pre2 = pre + seq![(p % 256) as u8] + label;
        assert(d =~= pre2 + enc_rest + suf);
        lemma_parse_encode_name(pre2, rest, suf);
        assert(pre2.len() == pre.len() + 1 + p);
        assert(spec_parse_name(d, pos + 1 + d[pos]) == Some(
            (rest, (pre2.len() + rest.len() + 1) as int),
        ));
        assert(pos + 1 + d[pos] <= d.len()) by {
            lemma_parse_name_bounds(d, pos + 1 + d[pos]);
        };
        assert(d.subrange(pos + 1, pos + 1 + d[pos]) =~= label);
        let got = spec_parse_name(d, pos)->Some_0;
        assert(got.0 =~= name);
        assert(got.1 == pre.len() + name.len() + 1);
    }
}

/// The wire form of one question.
pub open spec fn spec_encode_query(q: QueryV) -> Seq<u8> {
    spec_encode_name(q.name) + spec_be16(q.q_type) + spec_be16(q.q_class)
}

/// The wire form of one answer.
pub open spec fn spec_encode_answer(a: AnswerV) -> Seq<u8> {
    spec_encode_name(a.name) + spec_be16(a.a_type) + spec_be16(a.a_class) + spec_be32(a.ttl)
        + spec_be16((a.data.len() % 0x1_0000) as u16) + a.data
}

pub open spec fn spec_encode_queries(qs: Seq<QueryV>) -> Seq<u8>
    decreases qs.len(),
{
    if qs.len() == 0 {
        Seq::empty()
    } else {
        spec_encode_query(qs[0]) + spec_encode_queries(qs.skip(1))
    }
}

pub open spec fn spec_encode_answers(ans: Seq<AnswerV>) -> Seq<u8>
    decreases ans.len(),
{
    if ans.len() == 0 {
        Seq::empty()
    } else {
        spec_encode_answer(ans[0]) + spec_encode_answers(ans.skip(1))
    }
}

/// The 12-byte header: id, flags, question and answer counts, and two zero
/// counts for the record sections this codec does not produce.
pub open spec fn spec_header(m: DnsV) -> Seq<u8> {
    spec_be16(m.transaction_id) + spec_be16(m.flags) + spec_be16((m.queries.len() % 0x1_0000) as u16)
        + spec_be16((m.answers.len() % 0x1_0000) as u16) + spec_be16(0) + spec_be16(0)
}

/// The wire form of a whole message.
pub open spec fn spec_compile(m: DnsV) -> Seq<u8> {
    spec_header(m) + spec_encode_queries(m.queries) + spec_encode_answers(m.answers)
}

/// The message can be serialized faithfully: counts fit their 16-bit fields,
/// every label fits its length prefix, record data fits its length field.
pub open spec fn spec_encodable(m: DnsV) -> bool {
    &&& m.queries.len() <= 0xFFFF
    &&& m.answers.len() <= 0xFFFF
    &&& forall|i: int| 0 <= i < m.queries.len() ==> spec_parts_fit(#[trigger] m.queries[i].name)
    &&& forall|i: int|
        0 <= i < m.answers.len() ==> spec_parts_fit(#[trigger] m.answers[i].name)
            && m.answers[i].data.len() <= 0xFFFF
}

/// Every name is canonical and every size fits its field; such a message
/// survives a round trip through the wire form unchanged.
pub open spec fn spec_wf_message(m: DnsV) -> bool {
    &&& m.queries.len() <= 0xFFFF
    &&& m.answers.len() <= 0xFFFF
    &&& forall|i: int| 0 <= i < m.queries.len() ==> spec_wf_name(#[trigger] m.queries[i].name)
    &&& forall|i: int|
        0 <= i < m.answers.len() ==> spec_wf_name(#[trigger] m.answers[i].name)
            && m.answers[i].data.len() <= 0xFFFF
}

pub proof fn lemma_wf_message_encodable(m: DnsV)
    requires
        spec_wf_message(m),
    ensures
        spec_encodable(m),
{
    assert forall|i: int| 0 <= i < m.queries.len() implies spec_parts_fit(
        #[trigger] m.queries[i].name,
    ) by {
        lemma_wf_name_parts_fit(m.queries[i].name);
    }
    assert forall|i: int| 0 <= i < m.answers.len() implies spec_parts_fit(
        #[trigger] m.answers[i].name,
    ) && m.answers[i].data.len() <= 0xFFFF by {
        lemma_wf_name_parts_fit(m.answers[i].name);
    }
}

proof fn lemma_encode_queries_snoc(qs: Seq<QueryV>, i: int)
    requires
        0 <= i < qs.len(),
    ensures
        spec_encode_queries(qs.take(i + 1)) == spec_encode_queries(qs.take(i)) + spec_encode_query(
            qs[i],
        ),
    decreases i,
{
    if i == 0 {
        assert(qs.take(0) =~= Seq::<QueryV>::empty());
        assert(qs.take(1) =~= seq![qs[0]]);
        assert(qs.take(1).skip(1) =~= Seq::<QueryV>::empty());
        assert(spec_encode_queries(Seq::<QueryV>::empty()) == Seq::<u8>::empty());
        assert(qs.take(1)[0] == qs[0]);
        assert(spec_encode_queries(qs.take(1)) == spec_encode_query(qs[0]) + Seq::<u8>::empty());
        assert(spec_encode_queries(qs.take(1)) =~= spec_encode_queries(qs.take(0))
            + spec_encode_query(qs[0]));
    } else {
        lemma_encode_queries_snoc(qs.skip(1), i - 1);
        assert(qs.take(i + 1).skip(1) =~= qs.skip(1).take(i));
        assert(qs.take(i).skip(1) =~= qs.skip(1).take(i - 1));
        assert(qs.take(i + 1)[0] == qs[0]);
        assert(qs.take(i)[0] == qs[0]);
        assert(qs.skip(1)[i - 1] == qs[i]);
        assert(spec_encode_queries(qs.take(i + 1)) =~= spec_encode_queries(qs.take(i))
            + spec_encode_query(qs[i]));
    }
}

proof fn lemma_encode_answers_snoc(ans: Seq<AnswerV>, i: int)
    requires
        0 <= i < ans.len(),
    ensures
        spec_encode_answers(ans.take(i + 1)) == spec_encode_answers(ans.take(i))
            + spec_encode_answer(ans[i]),
    decreases i,
{
    if i == 0 {
        assert(ans.take(0) =~= Seq::<AnswerV>::empty());
        assert(ans.take(1) =~= seq![ans[0]]);
        assert(ans.take(1).skip(1) =~= Seq::<AnswerV>::empty());
        assert(spec_encode_answers(Seq::<AnswerV>::empty()) == Seq::<u8>::empty());
        assert(ans.take(1)[0] == ans[0]);
        assert(spec_encode_answers(ans.take(1)) == spec_encode_answer(ans[0]) + Seq::<u8>::empty());
        assert(spec_encode_answers(ans.take(1)) =~= spec_encode_answers(ans.take(0))
            + spec_encode_answer(ans[0]));
    } else {
        lemma_encode_answers_snoc(ans.skip(1), i - 1);
        assert(ans.take(i + 1).skip(1) =~= ans.skip(1).take(i));
        assert(ans.take(i).skip(1) =~= ans.skip(1).take(i - 1));
        assert(ans.take(i + 1)[0] == ans[0]);
        assert(ans.take(i)[0] == ans[0]);
        assert(ans.skip(1)[i - 1] == ans[i]);
        assert(spec_encode_answers(ans.take(i + 1)) =~= spec_encode_answers(ans.take(i))
            + spec_encode_answer(ans[i]));
    }
}

fn encode_query_into(out: &mut Vec<u8>, q: &DnsQuery)
    requires
        spec_parts_fit(q@.name),
    ensures
        final(out)@ == old(out)@ + spec_encode_query(q@),
{
    encode_name_into(out, q.name.as_slice());
    push_be16(out, q.q_type);
    push_be16(out, q.q_class);
    assert(out@ =~= old(out)@ + spec_encode_query(q@));
}

fn encode_answer_into(out: &mut Vec<u8>, a: &DnsAnswer)
    requires
        spec_parts_fit(a@.name),
        a@.data.len() <= 0xFFFF,
    ensures
        final(out)@ == old(out)@ + spec_encode_answer(a@),
{
    encode_name_into(out, a.name.as_slice());
    push_be16(out, a.a_type);
    push_be16(out, a.a_class);
    push_be32(out, a.ttl);
    push_be16(out, a.data.len() as u16);
    push_range(out, a.data.as_slice(), 0, a.data.len());
    proof {
        assert(a.data@.subrange(0, a.data@.len() as int) =~= a.data@);
        assert(out@ =~= old(out)@ + spec_encode_answer(a@));
    }
}

impl Dns {
    /// Serialize the message into its wire form.
    pub fn compile(&self) -> (r: Vec<u8>)
        requires
            spec_encodable(self@),
        ensures
            r@ == spec_compile(self@),
    {
        let mut out: Vec<u8> = Vec::new();
        push_be16(&mut out, self.transaction_id);
        push_be16(&mut out, self.flags);
        push_be16(&mut out, self.queries.len() as u16);
        push_be16(&mut out, self.answers.len() as u16);
        push_be16(&mut out, 0);
        push_be16(&mut out, 0);
        proof {
            assert(out@ =~= spec_header(self@));
        }
        let mut i: usize = 0;
        while i < self.queries.len()
            invariant
                0 <= i <= self.queries@.len(),
                spec_encodable(self@),
                self@ == View::view(self),
                out@ == spec_header(self@) + spec_encode_queries(self@.queries.take(i as int)),
            decreases self.queries@.len() - i,
        {
            proof {
                assert(self@.queries[i as int] == self.queries@[i as int]@);
            }
            encode_query_into(&mut out, &self.queries[i]);
            proof {
                lemma_encode_queries_snoc(self@.queries, i as int);
            }
            i = i + 1;
        }
        proof {
            assert(self@.queries.take(self.queries@.len() as int) =~= self@.queries);
        }
        let mut j: usize = 0;
        while j < self.answers.len()
            invariant
                0 <= j <= self.answers@.len(),
                spec_encodable(self@),
                self@ == View::view(self),
                out@ == spec_header(self@) + spec_encode_queries(self@.queries)
                    + spec_encode_answers(self@.answers.take(j as int)),
            decreases self.answers@.len() - j,
        {
            proof {
                assert(self@.answers[j as int] == self.answers@[j as int]@);
            }
            encode_answer_into(&mut out, &self.answers[j]);
            proof {
                lemma_encode_answers_snoc(self@.answers, j as int);
            }
            j = j + 1;
        }
        proof {
            assert(self@.answers.take(self.answers@.len() as int) =~= self@.answers);
            assert(out@ =~= spec_compile(self@));
        }
        out
    }
}

/// What parsing one question at `pos` returns.
pub open spec fn spec_parse_query(d: Seq<u8>, pos: int) -> Option<(QueryV, int)> {
    match spec_parse_name(d, pos) {
        Some(v) => if v.1 + 4 <= d.len() {
            Some(
                (
                    QueryV {
                        name: v.0,
                        q_type: spec_read_u16(d, v.1),
                        q_class: spec_read_u16(d, v.1 + 2),
                    },
                    v.1 + 4,
                ),
            )
        } else {
            None
        },
        None => None,
    }
}

/// What parsing `n` questions in a row at `pos` returns.
pub open spec fn spec_parse_queries(d: Seq<u8>, pos: int, n: int) -> Option<(Seq<QueryV>, int)>
    decreases n,
{
    if n <= 0 {
        Some((Seq::empty(), pos))
    } else {
        match spec_parse_query(d, pos) {
            Some(v) => match spec_parse_queries(d, v.1, n - 1) {
                Some(w) => Some((seq![v.0] + w.0, w.1)),
                None => None,
            },
            None => None,
        }
    }
}

/// What parsing one answer at `pos` returns: name, type, class, ttl and the
/// length-prefixed record data.
pub open spec fn spec_parse_answer(d: Seq<u8>, pos: int) -> Option<(AnswerV, int)> {
    match spec_parse_name(d, pos) {
        Some(v) => if v.1 + 10 <= d.len() && v.1 + 10 + spec_read_u16(d, v.1 + 8) <= d.len() {
            Some(
                (
                    AnswerV {
                        name: v.0,
                        a_type: spec_read_u16(d, v.1),
                        a_class: spec_read_u16(d, v.1 + 2),
                        ttl: spec_read_u32(d, v.1 + 4),
                        data: d.subrange(v.1 + 10, v.1 + 10 + spec_read_u16(d, v.1 + 8)),
                    },
                    v.1 + 10 + spec_read_u16(d, v.1 + 8),
                ),
            )
        } else {
            None
        },
        None => None,
    }
}

/// What parsing `n` answers in a row at `pos` returns.
pub open spec fn spec_parse_answers(d: Seq<u8>, pos: int, n: int) -> Option<(Seq<AnswerV>, int)>
    decreases n,
{
    if n <= 0 {
        Some((Seq::empty(), pos))
    } else {
        match spec_parse_answer(d, pos) {
            Some(v) => match spec_parse_answers(d, v.1, n - 1) {
                Some(w) => Some((seq![v.0] + w.0, w.1)),
                None => None,
            },
            None => None,
        }
    }
}

/// What decoding a whole message returns: header fields, then exactly the
/// counted questions and answers; bytes after them are ignored; any
/// truncation yields nothing.
pub open spec fn spec_parse(d: Seq<u8>) -> Option<DnsV> {
    if d.len() >= 12 {
        match spec_parse_queries(d, 12, spec_read_u16(d, 4) as int) {
            Some(qv) => match spec_parse_answers(d, qv.1, spec_read_u16(d, 6) as int) {
                Some(av) => Some(
                    DnsV {
                        transaction_id: spec_read_u16(d, 0),
                        flags: spec_read_u16(d, 2),
                        queries: qv.0,
                        answers: av.0,
                    },
                ),
                None => None,
            },
            None => None,
        }
    } else {
        None
    }
}

/// Parse one question at `pos`.
pub fn parse_query(d: &[u8], pos: usize) -> (r: Result<(DnsQuery, usize), Error>)
    ensures
        match spec_parse_query(d@, pos as int) {
            Some(v) => r matches Ok(p) && p.0@ == v.0 && p.1 as int == v.1,
            None => r matches Err(e) && e == Error::InvalidInput,
        },
{
    let name_end = match parse_name(d, pos) {
        Ok(x) => x,
        Err(e) => {
            return Err(e);
        },
    };
    proof {
        lemma_parse_name_bounds(d@, pos as int);
    }
    let p = name_end.1;
    if d.len() - p < 4 {
        return Err(Error::InvalidInput);
    }
    let q_type = read_u16(d, p);
    let q_class = read_u16(d, p + 2);
    Ok((DnsQuery { name: name_end.0, q_type, q_class }, p + 4))
}

/// Parse `n` questions in a row at `pos`.
pub fn parse_queries(d: &[u8], pos: usize, n: usize) -> (r: Result<(Vec<DnsQuery>, usize), Error>)
    ensures
        match spec_parse_queries(d@, pos as int, n as int) {
            Some(v) => r matches Ok(p) && p.0.deep_view() == v.0 && p.1 as int == v.1,
            None => r matches Err(e) && e == Error::InvalidInput,
        },
    decreases n,
{
    if n == 0 {
        let out: Vec<DnsQuery> = Vec::new();
        proof {
            assert(out.deep_view() =~= Seq::<QueryV>::empty());
        }
        return Ok((out, pos));
    }
    let first = match parse_query(d, pos) {
        Ok(x) => x,
        Err(e) => {
            return Err(e);
        },
    };
    match parse_queries(d, first.1, n - 1) {
        Ok(rest) => {
            let mut v = rest.0;
            let ghost tail_dv = v.deep_view();
            let ghost tail_vs = v@;
            v.insert(0, first.0);
            proof {
                assert(v.deep_view()[0] == first.0@);
                assert forall|i: int| 1 <= i < v@.len() implies v.deep_view()[i] == tail_dv[i
                    - 1] by {
                    assert(v@[i] == tail_vs[i - 1]);
                }
                let sv = spec_parse_queries(d@, pos as int, n as int)->Some_0;
                assert(v.deep_view() =~= sv.0);
            }
            Ok((v, rest.1))
        },
        Err(e) => Err(e),
    }
}

/// Parse one answer at `pos`.
pub fn parse_answer(d: &[u8], pos: usize) -> (r: Result<(DnsAnswer, usize), Error>)
    ensures
        match spec_parse_answer(d@, pos as int) {
            Some(v) => r matches Ok(p) && p.0@ == v.0 && p.1 as int == v.1,
            None => r matches Err(e) && e == Error::InvalidInput,
        },
{
    let name_end = match parse_name(d, pos) {
        Ok(x) => x,
        Err(e) => {
            return Err(e);
        },
    };
    proof {
        lemma_parse_name_bounds(d@, pos as int);
    }
    let p = name_end.1;
    if d.len() - p < 10 {
        return Err(Error::InvalidInput);
    }
    let a_type = read_u16(d, p);
    let a_class = read_u16(d, p + 2);
    let ttl = read_u32(d, p + 4);
    let rdlen = read_u16(d, p + 8) as usize;
    if d.len() - (p + 10) < rdlen {
        return Err(Error::InvalidInput);
    }
    let data = slice_to_vec(slice_subrange(d, p + 10, p + 10 + rdlen));
    Ok((DnsAnswer { name: name_end.0, a_type, a_class, ttl, data }, p + 10 + rdlen))
}

/// Parse `n` answers in a row at `pos`.
pub fn parse_answers(d: &[u8], pos: usize, n: usize) -> (r: Result<(Vec<DnsAnswer>, usize), Error>)
    ensures
        match spec_parse_answers(d@, pos as int, n as int) {
            Some(v) => r matches Ok(p) && p.0.deep_view() == v.0 && p.1 as int == v.1,
            None => r matches Err(e) && e == Error::InvalidInput,
        },
    decreases n,
{
    if n == 0 {
        let out: Vec<DnsAnswer> = Vec::new();
        proof {
            assert(out.deep_view() =~= Seq::<AnswerV>::empty());
        }
        return Ok((out, pos));
    }
    let first = match parse_answer(d, pos) {
        Ok(x) => x,
        Err(e) => {
            return Err(e);
        },
    };
    match parse_answers(d, first.1, n - 1) {
        Ok(rest) => {
            let mut v = rest.0;
            let ghost tail_dv = v.deep_view();
            let ghost tail_vs = v@;
            v.insert(0, first.0);
            proof {
                assert(v.deep_view()[0] == first.0@);
                assert forall|i: int| 1 <= i < v@.len() implies v.deep_view()[i] == tail_dv[i
                    - 1] by {
                    assert(v@[i] == tail_vs[i - 1]);
                }
                let sv = spec_parse_answers(d@, pos as int, n as int)->Some_0;
                assert(v.deep_view() =~= sv.0);
            }
            Ok((v, rest.1))
        },
        Err(e) => Err(e),
    }
}

impl Dns {
    /// Decode a whole message from its wire form.
    pub fn parse(d: &[u8]) -> (r: Result<Dns, Error>)
        ensures
            match spec_parse(d@) {
                Some(m) => r matches Ok(x) && x@ == m,
                None => r matches Err(e) && e == Error::InvalidInput,
            },
    {
        if d.len() < 12 {
            return Err(Error::InvalidInput);
        }
        let transaction_id = read_u16(d, 0);
        let flags = read_u16(d, 2);
        let qd = read_u16(d, 4);
        let an = read_u16(d, 6);
        let queries_end = match parse_queries(d, 12, qd as usize) {
            Ok(x) => x,
            Err(e) => {
                return Err(e);
            },
        };
        let answers_end = match parse_answers(d, queries_end.1, an as usize) {
            Ok(x) => x,
            Err(e) => {
                return Err(e);
            },
        };
        Ok(Dns { transaction_id, flags, queries: queries_end.0, answers: answers_end.0 })
    }
}

/// The wire form of a name is exactly one byte longer than its text.
pub proof fn lemma_encode_name_len(s: Seq<u8>)
    ensures
        spec_encode_name(s).len() == s.len() + 1,
    decreases s.len(),
{
    lemma_find2(s, DOT, DOT);
    let p = spec_find2(s, DOT, DOT);
    if 0 <= p < s.len() {
        lemma_encode_name_len(s.skip(p + 1));
    }
}

/// Parsing the wire form of a question recovers it exactly.
pub proof fn lemma_parse_encode_query(pre: Seq<u8>, q: QueryV, suf: Seq<u8>)
    requires
        spec_wf_name(q.name),
    ensures
        spec_parse_query(pre + spec_encode_query(q) + suf, pre.len() as int) == Some(
            (q, (pre.len() + spec_encode_query(q).len()) as int),
        ),
{
    let d = pre + spec_encode_query(q) + suf;
    let tail = spec_be16(q.q_type) + spec_be16(q.q_class) + suf;
    assert(d =~= pre + spec_encode_name(q.name) + tail);
    lemma_parse_encode_name(pre, q.name, tail);
    lemma_encode_name_len(q.name);
    let p = (pre.len() + q.name.len() + 1) as int;
    assert(d.subrange(p, p + 2) =~= spec_be16(q.q_type));
    lemma_read_be16(d, p, q.q_type);
    assert(d.subrange(p + 2, p + 4) =~= spec_be16(q.q_class));
    lemma_read_be16(d, p + 2, q.q_class);
    let got = spec_parse_query(d, pre.len() as int)->Some_0;
    assert(got.0 =~= q);
    assert(got.1 == pre.len() + spec_encode_query(q).len());
}

/// Parsing the wire forms of a question list recovers the list exactly.
pub proof fn lemma_parse_encode_queries(pre: Seq<u8>, qs: Seq<QueryV>, suf: Seq<u8>)
    requires
        forall|i: int| 0 <= i < qs.len() ==> spec_wf_name(#[trigger] qs[i].name),
    ensures
        spec_parse_queries(pre + spec_encode_queries(qs) + suf, pre.len() as int, qs.len() as int)
            == Some((qs, (pre.len() + spec_encode_queries(qs).len()) as int)),
    decreases qs.len(),
{
    let d = pre + spec_encode_queries(qs) + suf;
    if qs.len() == 0 {
        assert(qs =~= Seq::<QueryV>::empty());
        assert(spec_parse_queries(d, pre.len() as int, 0) == Some(
            (Seq::<QueryV>::empty(), pre.len() as int),
        ));
    } else {
        let q0 = qs[0];
        let rest = qs.skip(1);
        assert(spec_encode_queries(qs) == spec_encode_query(q0) + spec_encode_queries(rest));
        let tail = spec_encode_queries(rest) + suf;
        assert(d =~= pre + spec_encode_query(q0) + tail);
        lemma_parse_encode_query(pre, q0, tail);
        let pre2 = pre + spec_encode_query(q0);
        assert(d =~= pre2 + spec_encode_queries(rest) + suf);
        assert forall|i: int| 0 <= i < rest.len() implies spec_wf_name(
            #[trigger] rest[i].name,
        ) by {
            assert(rest[i] == qs[i + 1]);
            assert(spec_wf_name(qs[i + 1].name));
        }
        lemma_parse_encode_queries(pre2, rest, suf);
        assert(seq![q0] + rest =~= qs);
        assert(spec_parse_queries(d, pre.len() as int, qs.len() as int) == Some(
            (qs, (pre.len() + spec_encode_queries(qs).len()) as int),
        ));
    }
}

/// Parsing the wire form of an answer recovers it exactly.
#[verifier::rlimit(60)]
pub proof fn lemma_parse_encode_answer(pre: Seq<u8>, a: AnswerV, suf: Seq<u8>)
    requires
        spec_wf_name(a.name),
        a.data.len() <= 0xFFFF,
    ensures
        spec_parse_answer(pre + spec_encode_answer(a) + suf, pre.len() as int) == Some(
            (a, (pre.len() + spec_encode_answer(a).len()) as int),
        ),
{
    let d = pre + spec_encode_answer(a) + suf;
    let len16 = (a.data.len() % 0x1_0000) as u16;
    let tail = spec_be16(a.a_type) + spec_be16(a.a_class) + spec_be32(a.ttl) + spec_be16(len16)
        + a.data + suf;
    assert(d =~= pre + spec_encode_name(a.name) + tail);
    lemma_parse_encode_name(pre, a.name, tail);
    lemma_encode_name_len(a.name);
    let p = (pre.len() + a.name.len() + 1) as int;
    assert(d.subrange(p, p + 2) =~= spec_be16(a.a_type));
    lemma_read_be16(d, p, a.a_type);
    assert(d.subrange(p + 2, p + 4) =~= spec_be16(a.a_class));
    lemma_read_be16(d, p + 2, a.a_class);
    assert(d.subrange(p + 4, p + 8) =~= spec_be32(a.ttl));
    lemma_read_be32(d, p + 4, a.ttl);
    assert(d.subrange(p + 8, p + 10) =~= spec_be16(len16));
    lemma_read_be16(d, p + 8, len16);
    assert(spec_read_u16(d, p + 8) as int == a.data.len());
    assert(d.subrange(p + 10, p + 10 + a.data.len()) =~= a.data);
    let got = spec_parse_answer(d, pre.len() as int)->Some_0;
    assert(got.0 =~= a);
    assert(got.1 == pre.len() + spec_encode_answer(a).len());
}

/// Parsing the wire forms of an answer list recovers the list exactly.
#[verifier::rlimit(60)]
pub proof fn lemma_parse_encode_answers(pre: Seq<u8>, ans: Seq<AnswerV>, suf: Seq<u8>)
    requires
        forall|i: int|
            0 <= i < ans.len() ==> spec_wf_name(#[trigger] ans[i].name) && ans[i].data.len()
                <= 0xFFFF,
    ensures
        spec_parse_answers(pre + spec_encode_answers(ans) + suf, pre.len() as int, ans.len() as int)
            == Some((ans, (pre.len() + spec_encode_answers(ans).len()) as int)),
    decreases ans.len(),
{
    let d = pre + spec_encode_answers(ans) + suf;
    if ans.len() == 0 {
        assert(ans =~= Seq::<AnswerV>::empty());
        assert(spec_parse_answers(d, pre.len() as int, 0) == Some(
            (Seq::<AnswerV>::empty(), pre.len() as int),
        ));
    } else {
        let a0 = ans[0];
        let rest = ans.skip(1);
        assert(spec_encode_answers(ans) == spec_encode_answer(a0) + spec_encode_answers(rest));
        let tail = spec_encode_answers(rest) + suf;
        assert(d =~= pre + spec_encode_answer(a0) + tail);
        lemma_parse_encode_answer(pre, a0, tail);
        let pre2 = pre + spec_encode_answer(a0);
        assert(d =~= pre2 + spec_encode_answers(rest) + suf);
        assert forall|i: int| 0 <= i < rest.len() implies spec_wf_name(#[trigger] rest[i].name)
            && rest[i].data.len() <= 0xFFFF by {
            assert(rest[i] == ans[i + 1]);
            assert(spec_wf_name(ans[i + 1].name) && ans[i + 1].data.len() <= 0xFFFF);
        }
        lemma_parse_encode_answers(pre2, rest, suf);
        assert(seq![a0] + rest =~= ans);
        assert(spec_parse_answers(d, pre.len() as int, ans.len() as int) == Some(
            (ans, (pre.len() + spec_encode_answers(ans).len()) as int),
        ));
    }
}

/// Decoding an encoded message reproduces it whole: the same transaction id
/// and flags, and the same questions and answers, in order, with the same
/// names, types and classes.
pub proof fn lemma_message_round_trip(m: DnsV)
    requires
        spec_wf_message(m),
    ensures
        spec_parse(spec_compile(m)) == Some(m),
{
    let d = spec_compile(m);
    let h = spec_header(m);
    assert(h.len() == 12);
    assert(d.len() >= 12);
    assert(d.subrange(0, 2) =~= spec_be16(m.transaction_id));
    lemma_read_be16(d, 0, m.transaction_id);
    assert(d.subrange(2, 4) =~= spec_be16(m.flags));
    lemma_read_be16(d, 2, m.flags);
    let qd16 = (m.queries.len() % 0x1_0000) as u16;
    assert(d.subrange(4, 6) =~= spec_be16(qd16));
    lemma_read_be16(d, 4, qd16);
    assert(spec_read_u16(d, 4) as int == m.queries.len());
    let an16 = (m.answers.len() % 0x1_0000) as u16;
    assert(d.subrange(6, 8) =~= spec_be16(an16));
    lemma_read_be16(d, 6, an16);
    assert(spec_read_u16(d, 6) as int == m.answers.len());
    assert(d =~= h + spec_encode_queries(m.queries) + spec_encode_answers(m.answers));
    lemma_parse_encode_queries(h, m.queries, spec_encode_answers(m.answers));
    let pre2 = h + spec_encode_queries(m.queries);
    assert(d =~= pre2 + spec_encode_answers(m.answers) + Seq::<u8>::empty());
    lemma_parse_encode_answers(pre2, m.answers, Seq::<u8>::empty());
    let got = spec_parse(d)->Some_0;
    assert(got =~= m);
}

} // verus!
