use https_dns::message::{DnsMessage, RecordData};
use trust_dns_proto::op::{Message, Query};
use trust_dns_proto::rr::{Name, RData, Record, RecordType};

#[test]
fn decode_reads_question_and_answers() {
    let name = Name::from_ascii("Example.com").unwrap();
    let mut message = Message::new();
    message.set_id(0xBEEF);
    message.add_query(Query::query(name.clone(), RecordType::AAAA));
    let mut v6 = Record::with(name.clone(), RecordType::AAAA, 30);
    v6.set_data(Some(RData::AAAA([0, 0, 0, 0, 0, 0, 0, 1].into())));
    message.add_answer(v6);
    let mut txt = Record::with(name.clone(), RecordType::NULL, 40);
    txt.set_data(None);
    message.add_answer(txt);
    let wire = message.to_vec().unwrap();
    let m = DnsMessage::decode(wire.clone()).unwrap();
    assert_eq!(m.wire, wire);
    assert_eq!(m.id(), 0xBEEF);
    let q = m.query.clone().unwrap();
    assert_eq!(q.0, b"Example.com.".to_vec());
    assert_eq!(q.1, 28);
    assert_eq!(q.2, 1);
    assert_eq!(m.answers.len(), 2);
    assert_eq!(m.answers[0].ttl, 30);
    assert_eq!(m.answers[0].data, RecordData::V6(1));
    assert_eq!(m.answers[1].ttl, 40);
}

#[test]
fn decode_rejects_garbage() {
    assert!(DnsMessage::decode(vec![]).is_err());
    assert!(DnsMessage::decode(vec![1, 2, 3]).is_err());
}

#[test]
fn with_id_replaces_only_the_id() {
    let mut message = Message::new();
    message.set_id(1);
    message.add_query(Query::query("a.example".parse().unwrap(), RecordType::A));
    let m = DnsMessage::decode(message.to_vec().unwrap()).unwrap();
    let n = m.with_id(0xABCD);
    assert_eq!(n.id(), 0xABCD);
    assert_eq!(m.id(), 1);
    assert_eq!(n.wire[2..], m.wire[2..]);
    assert_eq!(Message::from_vec(&n.wire).unwrap().id(), 0xABCD);
    assert_eq!(n.duplicate().wire, n.wire);
}
