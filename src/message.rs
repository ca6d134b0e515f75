use trust_dns_proto::rr::RData;
use vstd::prelude::*;

verus! {

/// The data of an answer record, as far as the gateway reads it.
#[derive(Clone, Copy, Debug, PartialEq, Eq, Structural)]
pub enum RecordData {
    /// The record carries no data.
    Missing,
    /// An IPv4 address, most significant octet first.
    V4(u32),
    /// An IPv6 address, most significant octet first.
    V6(u128),
    /// Data of any other record type.
    Other,
}

/// One answer record: its TTL in seconds and its data.
#[derive(Clone, Copy, Debug, PartialEq, Eq, Structural)]
pub struct Answer {
    pub ttl: u32,
    pub data: RecordData,
}

/// A question: the name in presentation form, the record type and the class.
pub type QueryView = (Seq<u8>, u16, u16);

/// What the DNS codec reads from wire bytes, if they decode: the first
/// question of the message and its answer records, in order.
pub uninterp spec fn decoded(wire: Seq<u8>) -> Option<(Option<QueryView>, Seq<Answer>)>;

/// Relies on trust-dns-proto's `Message::from_vec`: whether and what it
/// decodes depends on the bytes alone, and it reads the 12-byte header,
/// which opens with the message ID, before anything else.
#[verifier::external_body]
fn decode_wire(wire: &Vec<u8>) -> (r: Result<(Option<(Vec<u8>, u16, u16)>, Vec<Answer>), String>)
    ensures
        r is Ok <==> decoded(wire@) is Some,
        r is Ok ==> wire@.len() >= 12 && decoded(wire@) == Some(
            (query_view(r->Ok_0.0), r->Ok_0.1@),
        ),
{
    let m = trust_dns_proto::op::Message::from_vec(wire).map_err(|e| e.to_string())?;
    let query = m.queries().first().map(|q| {
        (q.name().to_ascii().into_bytes(), u16::from(q.query_type()), u16::from(q.query_class()))
    });
    let answers = m.answers().iter().map(|r| Answer { ttl: r.ttl(), data: match r.data() {
        Some(RData::A(a)) => RecordData::V4(u32::from(*a)),
        Some(RData::AAAA(a)) => RecordData::V6(u128::from(*a)),
        Some(_) => RecordData::Other,
        None => RecordData::Missing,
    } }).collect();
    Ok((query, answers))
}

pub open spec fn query_view(q: Option<(Vec<u8>, u16, u16)>) -> Option<QueryView> {
    match q {
        Some(t) => Some((t.0@, t.1, t.2)),
        None => None,
    }
}

/// The message ID: the first two bytes of the wire form, big-endian.
pub open spec fn wire_id(wire: Seq<u8>) -> u16 {
    (wire[0] as int * 256 + wire[1] as int) as u16
}

/// The wire form with its message ID replaced.
pub open spec fn wire_with_id(wire: Seq<u8>, id: u16) -> Seq<u8> {
    wire.update(0, (id / 256) as u8).update(1, (id % 256) as u8)
}

/// A DNS message: its wire form, together with what decoding that form
/// yielded (apart from the message ID, which lives in the wire form alone).
pub struct DnsMessage {
    pub wire: Vec<u8>,
    pub query: Option<(Vec<u8>, u16, u16)>,
    pub answers: Vec<Answer>,
}

pub struct MessageView {
    pub wire: Seq<u8>,
    pub query: Option<QueryView>,
    pub answers: Seq<Answer>,
}

impl MessageView {
    /// The wire form holds at least a full header.
    pub open spec fn wf(self) -> bool {
        self.wire.len() >= 12
    }

    pub open spec fn id(self) -> u16 {
        wire_id(self.wire)
    }

    /// The same message under another ID.
    pub open spec fn with_id(self, id: u16) -> MessageView {
        MessageView { wire: wire_with_id(self.wire, id), ..self }
    }
}

impl View for DnsMessage {
    type V = MessageView;

    open spec fn view(&self) -> MessageView {
        MessageView { wire: self.wire@, query: query_view(self.query), answers: self.answers@ }
    }
}

fn copy_query(q: &Option<(Vec<u8>, u16, u16)>) -> (r: Option<(Vec<u8>, u16, u16)>)
    ensures
        query_view(r) == query_view(*q),
{
    match q {
        Some(t) => Some((t.0.clone(), t.1, t.2)),
        None => None,
    }
}

impl DnsMessage {
    /// Decodes a DNS message from its wire form; fails exactly when the
    /// codec rejects the bytes.
    pub fn decode(wire: Vec<u8>) -> (r: Result<DnsMessage, String>)
        ensures
            r is Ok <==> decoded(wire@) is Some,
            r matches Ok(m) ==> m@.wf() && m.wire@ == wire@ && decoded(wire@) == Some(
                (m@.query, m@.answers),
            ),
    {
        match decode_wire(&wire) {
            Ok(parts) => Ok(DnsMessage { wire, query: parts.0, answers: parts.1 }),
            Err(e) => Err(e),
        }
    }

    pub fn id(&self) -> (r: u16)
        requires
            self@.wf(),
        ensures
            r == self@.id(),
    {
        let hi = self.wire[0] as u16;
        let lo = self.wire[1] as u16;
        assert(hi * 256 + lo <= 65535) by (nonlinear_arith)
            requires
                hi <= 255,
                lo <= 255,
        ;
        hi * 256 + lo
    }

    /// A copy of the message that carries the given ID.
    pub fn with_id(&self, id: u16) -> (r: DnsMessage)
        requires
            self@.wf(),
        ensures
            r@ == self@.with_id(id),
            r@.wf(),
            r@.id() == id,
    {
        let mut wire = self.wire.clone();
        wire.set(0, (id / 256) as u8);
        wire.set(1, (id % 256) as u8);
        let r = DnsMessage { wire, query: copy_query(&self.query), answers: self.answers.clone() };
        assert(r.wire@ =~= wire_with_id(self.wire@, id));
        assert(r.answers@ =~= self.answers@);
        r
    }

    /// A copy of the message.
    pub fn duplicate(&self) -> (r: DnsMessage)
        ensures
            r@ == self@,
    {
        let r = DnsMessage {
            wire: self.wire.clone(),
            query: copy_query(&self.query),
            answers: self.answers.clone(),
        };
        assert(r.wire@ =~= self.wire@);
        assert(r.answers@ =~= self.answers@);
        r
    }
}

} // verus!
