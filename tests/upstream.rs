use https_dns::bootstrap::{
    bootstrap_address, bootstrap_request, build_request_message, request_message_with_id, IpAddress,
};
use https_dns::error::{LocalError, UpstreamError};
use https_dns::local::{bind_error, receive_datagram, Inbound};
use https_dns::message::DnsMessage;
use https_dns::upstream::{HttpsClient, Step};
use trust_dns_proto::op::{Message, MessageType, Query};
use trust_dns_proto::rr::{Name, RData, Record, RecordType};

fn query_wire(host: &str, id: u16) -> Vec<u8> {
    let mut message = Message::new();
    message.set_id(id);
    message.add_query(Query::query(host.parse().unwrap(), RecordType::A));
    message.to_vec().unwrap()
}

fn answer_wire(host: &str, id: u16, data: Vec<(Option<RData>, RecordType)>) -> Vec<u8> {
    let name: Name = host.parse().unwrap();
    let mut message = Message::new();
    message.set_id(id);
    message.add_query(Query::query(name.clone(), RecordType::A));
    for (d, t) in data {
        let mut record = Record::with(name.clone(), t, 1440);
        record.set_data(d);
        message.add_answer(record);
    }
    message.to_vec().unwrap()
}

fn first_address(wire: &[u8]) -> RData {
    Message::from_vec(wire).unwrap().answers()[0].data().unwrap().clone()
}

#[test]
fn second_identical_query_is_answered_from_cache() {
    let mut client = HttpsClient::new(String::from("cloudflare-dns.com"), 443);
    let mut upstream_calls = 0;
    let upstream = |body: &[u8]| {
        let request = Message::from_vec(body).unwrap();
        answer_wire("example.com", request.id(), vec![(Some(RData::A([1, 1, 1, 1].into())), RecordType::A)])
    };

    let first = match receive_datagram(&mut client, query_wire("example.com", 11)) {
        Inbound::Forward(body) => {
            upstream_calls += 1;
            client.finish(Ok(upstream(&body))).unwrap()
        }
        _ => panic!("the first query should go upstream"),
    };
    assert_eq!(first.id(), 11);
    assert_eq!(first_address(&first.wire), RData::A([1, 1, 1, 1].into()));

    match receive_datagram(&mut client, query_wire("example.com", 12)) {
        Inbound::Reply(bytes) => {
            assert_eq!(Message::from_vec(&bytes).unwrap().id(), 12);
            assert_eq!(first_address(&bytes), RData::A([1, 1, 1, 1].into()));
        }
        _ => panic!("the second query should be answered from the cache"),
    }
    assert_eq!(upstream_calls, 1);
    assert_eq!(client.host, "cloudflare-dns.com");
    assert_eq!(client.port, 443);
}

#[test]
fn process_forwards_the_request_on_a_miss() {
    let mut client = HttpsClient::new(String::from("1.1.1.1"), 443);
    let wire = query_wire("example.org", 5);
    let request = DnsMessage::decode(wire.clone()).unwrap();
    match client.process(&request) {
        Step::Forward(body) => assert_eq!(body, wire),
        Step::Answer(_) => panic!("an empty cache cannot answer"),
    }
}

#[test]
fn undecodable_datagram_is_dropped() {
    let mut client = HttpsClient::new(String::from("1.1.1.1"), 443);
    assert!(matches!(receive_datagram(&mut client, vec![0, 1, 2]), Inbound::Drop));
}

#[test]
fn upstream_failures_resolve_to_errors() {
    let mut client = HttpsClient::new(String::from("1.1.1.1"), 443);
    assert!(matches!(client.finish(Err(String::from("timed out"))), Err(UpstreamError::Resolve)));
    assert!(matches!(client.finish(Ok(vec![9, 9])), Err(UpstreamError::Resolve)));
}

#[test]
fn bootstrap_reads_an_ipv4_answer() {
    let wire = answer_wire("dns.google", 1, vec![(Some(RData::A([8, 8, 8, 8].into())), RecordType::A)]);
    assert_eq!(bootstrap_address("dns.google", Ok(wire)).unwrap(), IpAddress::V4(0x0808_0808));
}

#[test]
fn bootstrap_reads_an_ipv6_answer() {
    let wire = answer_wire(
        "dns.google",
        1,
        vec![(Some(RData::AAAA([0x2001, 0x4860, 0x4860, 0, 0, 0, 0, 0x8888].into())), RecordType::AAAA)],
    );
    assert_eq!(
        bootstrap_address("dns.google", Ok(wire)).unwrap(),
        IpAddress::V6(0x2001_4860_4860_0000_0000_0000_0000_8888)
    );
}

#[test]
fn bootstrap_fails_without_answers() {
    let wire = answer_wire("dns.google", 1, vec![]);
    match bootstrap_address("dns.google", Ok(wire)) {
        Err(UpstreamError::Bootstrap(host, why)) => {
            assert_eq!(host, "dns.google");
            assert_eq!(why, "the response doesn't contain the answer");
        }
        _ => panic!("an empty answer section must fail"),
    }
}

#[test]
fn bootstrap_fails_on_other_record_types() {
    let cname = RData::CNAME("alias.example".parse().unwrap());
    let wire = answer_wire("dns.google", 1, vec![(Some(cname), RecordType::CNAME)]);
    match bootstrap_address("dns.google", Ok(wire)) {
        Err(UpstreamError::Bootstrap(host, why)) => {
            assert_eq!(host, "dns.google");
            assert_eq!(why, "unknown record type");
        }
        _ => panic!("a CNAME answer must fail"),
    }
}

#[test]
fn bootstrap_fails_on_transport_and_decode_errors() {
    assert!(matches!(
        bootstrap_address("dns.google", Err(String::from("refused"))),
        Err(UpstreamError::Bootstrap(h, w)) if h == "dns.google" && w == "refused"
    ));
    assert!(matches!(
        bootstrap_address("dns.google", Ok(vec![1])),
        Err(UpstreamError::Bootstrap(h, _)) if h == "dns.google"
    ));
}

#[test]
fn bootstrap_request_asks_for_an_a_record() {
    let body = bootstrap_request("dns.google").unwrap();
    let message = Message::from_vec(&body).unwrap();
    assert_eq!(message.queries().len(), 1);
    assert_eq!(message.queries()[0].query_type(), RecordType::A);
    assert_eq!(message.queries()[0].name().to_ascii(), "dns.google.");
    assert_eq!(u16::from(message.queries()[0].query_class()), 1);
    assert!(message.answers().is_empty());
    assert!(message.recursion_desired());
    assert_eq!(message.message_type(), MessageType::Query);
}

#[test]
fn bootstrap_request_rejects_a_bad_name() {
    let host = format!("{}.com", "a".repeat(64));
    match bootstrap_request(&host) {
        Err(UpstreamError::Bootstrap(h, _)) => assert_eq!(h, host),
        _ => panic!("a 64-octet label is no domain name"),
    }
}

#[test]
fn request_message_has_one_query() {
    let m = build_request_message("one.one.one.one".parse().unwrap(), 28);
    assert_eq!(m.queries().len(), 1);
    assert_eq!(m.queries()[0].query_type(), RecordType::AAAA);
    assert_eq!(u16::from(m.queries()[0].query_class()), 1);
    assert_eq!(m.queries()[0].name().to_ascii(), "one.one.one.one");
    assert!(m.recursion_desired());
    assert_eq!(m.message_type(), MessageType::Query);
    assert!(m.answers().is_empty());
}

#[test]
fn request_message_carries_the_given_id() {
    let m = request_message_with_id("dns.google".parse().unwrap(), 1, 0x5151);
    assert_eq!(m.id(), 0x5151);
    assert_eq!(m.queries()[0].query_type(), RecordType::A);
    assert!(m.recursion_desired());
    let wire = m.to_vec().unwrap();
    assert_eq!(wire[0], 0x51);
    assert_eq!(wire[1], 0x51);
    assert_eq!(wire[2] & 0x81, 0x01);
}

#[test]
fn bootstrap_request_rejects_a_name_too_long_to_encode() {
    let host = format!("{}.{}.{}.{}", "a".repeat(63), "b".repeat(63), "c".repeat(63), "d".repeat(62));
    assert!(host.parse::<Name>().is_ok());
    match bootstrap_request(&host) {
        Err(UpstreamError::Bootstrap(h, why)) => {
            assert_eq!(h, host);
            assert_eq!(why, "the name is too long");
        }
        _ => panic!("a name of 255 octets cannot be encoded"),
    }
    let fits = format!("{}.{}.{}.{}", "a".repeat(63), "b".repeat(63), "c".repeat(63), "d".repeat(61));
    assert!(bootstrap_request(&fits).is_ok());
}

#[test]
fn request_messages_differ_only_in_id() {
    let name: Name = "dns.google".parse().unwrap();
    let mut a = build_request_message(name.clone(), 1);
    let b = build_request_message(name, 1);
    a.set_id(b.id());
    assert_eq!(a.to_vec().unwrap(), b.to_vec().unwrap());
}

#[test]
fn repeated_query_is_answered_at_the_given_time() {
    let mut client = HttpsClient::new(String::from("1.1.1.1"), 443);
    let body = answer_wire("example.com", 3, vec![(Some(RData::A([1, 1, 1, 1].into())), RecordType::A)]);
    let stored = client.finish_at(Ok(body.clone()), 10_000).unwrap();
    assert_eq!(stored.wire, body);
    let request = DnsMessage::decode(query_wire("example.com", 77)).unwrap();
    match client.process_at(&request, 10_000 + 1_439_999) {
        Step::Answer(m) => {
            assert_eq!(m.id(), 77);
            assert_eq!(m.wire[2..], body[2..]);
        }
        Step::Forward(_) => panic!("a fresh answer must come from the cache"),
    }
    match client.process_at(&request, 10_000 + 1_440_000) {
        Step::Forward(b) => assert_eq!(b, request.wire),
        Step::Answer(_) => panic!("an expired answer must not be served"),
    }
}

#[test]
fn bind_errors_are_classified() {
    assert!(matches!(bind_error(String::from("127.0.0.1"), 53, true), LocalError::PermissionDenied(h, 53) if h == "127.0.0.1"));
    assert!(matches!(bind_error(String::from("127.0.0.1"), 53, false), LocalError::Unknown(h, 53) if h == "127.0.0.1"));
}
