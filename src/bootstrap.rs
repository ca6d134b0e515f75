use trust_dns_proto::op::{Message, MessageType, Query};
use trust_dns_proto::rr::{Name, RecordType};
use vstd::prelude::*;

use crate::error::UpstreamError;
use crate::message::{decoded, wire_id, Answer, DnsMessage, QueryView, RecordData};

verus! {

/// The DoH endpoint asked during bootstrap, reached by IP literal so that
/// no name needs resolving first.
pub const BOOTSTRAP_URL: &'static str = "https://1.1.1.1/dns-query";

/// The record type of an IPv4 address query.
pub const A_RECORD: u16 = 1;

#[verifier::external_type_specification]
#[verifier::external_body]
pub struct ExName(Name);

#[verifier::external_type_specification]
#[verifier::external_body]
pub struct ExMessage(Message);

pub assume_specification<T>[ rand::random::<T> ]() -> T
    where
        rand::distributions::Standard: rand::distributions::Distribution<T>,
;

/// An address that the bootstrap resolver found.
#[derive(Clone, Copy, Debug, PartialEq, Eq, Structural)]
pub enum IpAddress {
    V4(u32),
    V6(u128),
}

/// The longest name, as `Name::len` counts it (label octets plus one dot per
/// label), whose wire form fits the 255 octets that DNS allows.
pub const MAX_NAME_LEN: usize = 254;

/// The domain name that the codec reads from `host`: its labels in fully
/// qualified presentation form, and its length as `Name::len` counts it;
/// `None` where `host` is no domain name.
pub uninterp spec fn parsed_name(host: Seq<char>) -> Option<(Seq<u8>, nat)>;

/// The labels of a domain name in fully qualified presentation form.
pub uninterp spec fn name_text(n: Name) -> Seq<u8>;

/// The length of a domain name as `Name::len` counts it.
pub uninterp spec fn name_len(n: Name) -> nat;

/// The questions that a message holds, in order.
pub uninterp spec fn message_queries(m: Message) -> Seq<QueryView>;

/// How many records a message holds over all its record sections (answers,
/// authorities, additionals, EDNS and signature records).
pub uninterp spec fn message_records(m: Message) -> nat;

/// Whether the name of every question in the message is at most
/// `MAX_NAME_LEN` long.
pub uninterp spec fn message_names_fit(m: Message) -> bool;

/// The header fields that the gateway sets: the ID, whether the message is a
/// query, and whether recursion is desired.
pub uninterp spec fn message_header(m: Message) -> (u16, bool, bool);

/// Whether the wire form is marked as a query (the top bit of the third octet clear).
pub open spec fn wire_is_query(wire: Seq<u8>) -> bool {
    wire[2] < 128
}

/// Whether the wire form asks for recursion (the low bit of the third octet set).
pub open spec fn wire_recursion_desired(wire: Seq<u8>) -> bool {
    wire[2] % 2 == 1
}

/// Relies on trust-dns-proto's `Name::from_str`: whether and to what a name
/// parses depends on the text alone; the error is rendered as text.
#[verifier::external_body]
fn parse_name(host: &str) -> (r: Result<Name, String>)
    ensures
        r is Ok <==> parsed_name(host@) is Some,
        r matches Ok(n) ==> parsed_name(host@) == Some((name_text(n), name_len(n))),
{
    host.parse::<Name>().map_err(|e| e.to_string())
}

/// Relies on trust-dns-proto's `Name::len`: label octets plus one per label.
#[verifier::external_body]
fn name_length(n: &Name) -> (r: usize)
    ensures
        r == name_len(*n),
{
    n.len()
}

/// Relies on trust-dns-proto's `Message::new`: no questions, no records, and
/// a header with ID 0, marked as a query, without recursion desired.
#[verifier::external_body]
fn message_new() -> (r: Message)
    ensures
        message_queries(r).len() == 0,
        message_records(r) == 0,
        message_names_fit(r),
        message_header(r) == (0u16, true, false),
{
    Message::new()
}

/// Relies on trust-dns-proto's `Message::set_id`: only the ID changes.
#[verifier::external_body]
fn set_id(m: &mut Message, id: u16)
    ensures
        message_header(*final(m)) == (id, message_header(*old(m)).1, message_header(*old(m)).2),
        message_queries(*final(m)) == message_queries(*old(m)),
        message_records(*final(m)) == message_records(*old(m)),
        message_names_fit(*final(m)) == message_names_fit(*old(m)),
{
    m.set_id(id);
}

/// Relies on trust-dns-proto's `Message::set_message_type`: only the
/// query/response mark changes.
#[verifier::external_body]
fn set_message_type(m: &mut Message, query: bool)
    ensures
        message_header(*final(m)) == (message_header(*old(m)).0, query, message_header(*old(m)).2),
        message_queries(*final(m)) == message_queries(*old(m)),
        message_records(*final(m)) == message_records(*old(m)),
        message_names_fit(*final(m)) == message_names_fit(*old(m)),
{
    m.set_message_type(if query { MessageType::Query } else { MessageType::Response });
}

/// Relies on trust-dns-proto's `Message::set_recursion_desired`: only that
/// flag changes.
#[verifier::external_body]
fn set_recursion_desired(m: &mut Message, desired: bool)
    ensures
        message_header(*final(m)) == (message_header(*old(m)).0, message_header(*old(m)).1, desired),
        message_queries(*final(m)) == message_queries(*old(m)),
        message_records(*final(m)) == message_records(*old(m)),
        message_names_fit(*final(m)) == message_names_fit(*old(m)),
{
    m.set_recursion_desired(desired);
}

/// Relies on trust-dns-proto's `Message::add_query`, handed the question that
/// `Query::query` makes of the name and the record type (whose code
/// `RecordType::from` keeps): the question, of class IN (1), is appended.
#[verifier::external_body]
fn add_query(m: &mut Message, name: Name, record_type: u16)
    ensures
        message_queries(*final(m)) == message_queries(*old(m)).push(
            (name_text(name), record_type, 1u16),
        ),
        message_names_fit(*final(m)) == (message_names_fit(*old(m)) && name_len(name)
            <= MAX_NAME_LEN),
        message_header(*final(m)) == message_header(*old(m)),
        message_records(*final(m)) == message_records(*old(m)),
{
    m.add_query(Query::query(name, RecordType::from(record_type)));
}

/// The first question of a list, if any.
pub open spec fn first_query(queries: Seq<QueryView>) -> Option<QueryView> {
    if queries.len() == 0 {
        None
    } else {
        Some(queries[0])
    }
}

/// Relies on trust-dns-proto's `Message::to_vec`. The header goes first: the
/// ID, then an octet whose top bit marks a response and whose low bit asks
/// for recursion. A message without records decodes back to its first
/// question and no answers. Encoding fails only on size limits, which a
/// message of at most one question, whose name fits, and no records stays
/// within.
#[verifier::external_body]
fn encode_message(m: &Message) -> (r: Result<Vec<u8>, String>)
    ensures
        r matches Ok(b) ==> b@.len() >= 12 && wire_id(b@) == message_header(*m).0
            && wire_is_query(b@) == message_header(*m).1 && wire_recursion_desired(b@)
            == message_header(*m).2,
        message_records(*m) == 0 ==> (r matches Ok(b) ==> decoded(b@) == Some(
            (first_query(message_queries(*m)), Seq::<Answer>::empty()),
        )),
        message_queries(*m).len() <= 1 && message_records(*m) == 0 && message_names_fit(*m)
            ==> r is Ok,
{
    m.to_vec().map_err(|e| e.to_string())
}

/// A recursive query under the given ID, with one question: `name`, of type
/// `record_type` and class IN; it holds no records.
pub fn request_message_with_id(name: Name, record_type: u16, id: u16) -> (r: Message)
    ensures
        message_queries(r) == seq![(name_text(name), record_type, 1u16)],
        message_records(r) == 0,
        message_names_fit(r) == (name_len(name) <= MAX_NAME_LEN),
        message_header(r) == (id, true, true),
{
    let mut m = message_new();
    set_id(&mut m, id);
    set_message_type(&mut m, true);
    set_recursion_desired(&mut m, true);
    add_query(&mut m, name, record_type);
    assert(message_queries(m) =~= seq![(name_text(name), record_type, 1u16)]);
    m
}

/// `request_message_with_id` under a random ID: only the ID differs between
/// two calls on the same arguments.
pub fn build_request_message(name: Name, record_type: u16) -> (r: Message)
    ensures
        message_queries(r) == seq![(name_text(name), record_type, 1u16)],
        message_records(r) == 0,
        message_names_fit(r) == (name_len(name) <= MAX_NAME_LEN),
        message_header(r).1,
        message_header(r).2,
{
    let id: u16 = rand::random();
    request_message_with_id(name, record_type, id)
}

/// Whether `host` can be asked for during bootstrap: it is a domain name
/// whose wire form fits.
pub open spec fn bootstrap_name_ok(host: Seq<char>) -> bool {
    parsed_name(host) matches Some(p) && p.1 <= MAX_NAME_LEN
}

/// The presentation form of the name that `host` parses to.
pub open spec fn bootstrap_name_text(host: Seq<char>) -> Seq<u8> {
    let p = parsed_name(host)->0;
    p.0
}

/// The body of the bootstrap query for `host`: the wire form of a recursive
/// A query for it, class IN, with no records. It fails, with `Bootstrap`
/// naming the host, exactly when the host is no domain name or too long a one.
pub fn bootstrap_request(host: &str) -> (r: Result<Vec<u8>, UpstreamError>)
    ensures
        r is Ok <==> bootstrap_name_ok(host@),
        r matches Ok(b) ==> decoded(b@) == Some(
            (Some((bootstrap_name_text(host@), A_RECORD, 1u16)), Seq::<Answer>::empty()),
        ) && wire_is_query(b@) && wire_recursion_desired(b@),
        r matches Err(e) ==> e matches UpstreamError::Bootstrap(h, _) && h@ == host@,
{
    let name = match parse_name(host) {
        Ok(name) => name,
        Err(e) => return Err(UpstreamError::Bootstrap(host.to_string(), e)),
    };
    if name_length(&name) > MAX_NAME_LEN {
        return Err(
            UpstreamError::Bootstrap(host.to_string(), "the name is too long".to_string()),
        );
    }
    let m = build_request_message(name, A_RECORD);
    match encode_message(&m) {
        Ok(body) => Ok(body),
        Err(e) => Err(UpstreamError::Bootstrap(host.to_string(), e)),
    }
}

/// The address that a bootstrap response gives: the first answer's, where
/// that answer carries an IPv4 or IPv6 address.
pub open spec fn address_of(answers: Seq<Answer>) -> Option<IpAddress> {
    if answers.len() == 0 {
        None
    } else {
        match answers[0].data {
            RecordData::V4(a) => Some(IpAddress::V4(a)),
            RecordData::V6(a) => Some(IpAddress::V6(a)),
            _ => None,
        }
    }
}

/// Reads the bootstrap resolver's reply for `host`. `response` is the body
/// that came back, or why none did. The result is the first answer's
/// address; every other outcome fails with `Bootstrap` naming the host.
pub fn bootstrap_address(host: &str, response: Result<Vec<u8>, String>) -> (r: Result<
    IpAddress,
    UpstreamError,
>)
    ensures
        r matches Err(e) ==> e matches UpstreamError::Bootstrap(h, _) && h@ == host@,
        match response {
            Ok(body) => match decoded(body@) {
                Some(parts) => match address_of(parts.1) {
                    Some(a) => r == Ok::<IpAddress, UpstreamError>(a),
                    None => r matches Err(UpstreamError::Bootstrap(_, why)) && why@ == (
                    if parts.1.len() > 0 && parts.1[0].data is Other {
                        "unknown record type"@
                    } else {
                        "the response doesn't contain the answer"@
                    }),
                },
                None => r is Err,
            },
            Err(_) => r is Err,
        },
{
    proof {
        reveal_strlit("unknown record type");
        reveal_strlit("the response doesn't contain the answer");
    }
    let body = match response {
        Ok(body) => body,
        Err(e) => return Err(UpstreamError::Bootstrap(host.to_string(), e)),
    };
    let m = match DnsMessage::decode(body) {
        Ok(m) => m,
        Err(e) => return Err(UpstreamError::Bootstrap(host.to_string(), e)),
    };
    if m.answers.len() == 0 {
        return Err(
            UpstreamError::Bootstrap(
                host.to_string(),
                "the response doesn't contain the answer".to_string(),
            ),
        );
    }
    match m.answers[0].data {
        RecordData::V4(a) => Ok(IpAddress::V4(a)),
        RecordData::V6(a) => Ok(IpAddress::V6(a)),
        RecordData::Missing => Err(
            UpstreamError::Bootstrap(
                host.to_string(),
                "the response doesn't contain the answer".to_string(),
            ),
        ),
        RecordData::Other => Err(
            UpstreamError::Bootstrap(host.to_string(), "unknown record type".to_string()),
        ),
    }
}

} // verus!
