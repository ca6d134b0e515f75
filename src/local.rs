use vstd::prelude::*;

use crate::error::LocalError;
use crate::message::{decoded, DnsMessage, MessageView};
use crate::upstream::{HttpsClient, Step};

verus! {

/// The size of the receive buffer: the classic limit of DNS over UDP.
/// Longer datagrams are truncated to it.
pub const DATAGRAM_SIZE: usize = 512;

/// What the listener does with one datagram.
pub enum Inbound {
    /// The datagram is no DNS message: drop it without a reply.
    Drop,
    /// Send these bytes back to the client.
    Reply(Vec<u8>),
    /// POST these bytes upstream, then hand the outcome to `HttpsClient::finish`.
    Forward(Vec<u8>),
}

/// Decides what becomes of one received datagram: one that does not decode
/// is dropped; otherwise the transport's cache answers it or it goes upstream.
pub fn receive_datagram(client: &mut HttpsClient, datagram: Vec<u8>) -> (r: Inbound)
    requires
        old(client).cache@.wf(),
    ensures
        final(client).cache@.wf(),
        final(client).host == old(client).host,
        final(client).port == old(client).port,
        decoded(datagram@) is None ==> r is Drop && final(client).cache@ == old(client).cache@,
        decoded(datagram@) is Some ==> exists|now: u64, m: MessageView|
            {
                let (c, hit) = #[trigger] old(client).cache@.get(m, now);
                &&& m.wire == datagram@
                &&& decoded(datagram@) == Some((m.query, m.answers))
                &&& final(client).cache@ == c
                &&& match r {
                    Inbound::Reply(b) => hit matches Some(a) && b@ == a.wire,
                    Inbound::Forward(b) => hit is None && b@ == datagram@,
                    Inbound::Drop => false,
                }
            },
{
    let request = match DnsMessage::decode(datagram) {
        Ok(m) => m,
        Err(_) => return Inbound::Drop,
    };
    match client.process(&request) {
        Step::Answer(m) => Inbound::Reply(m.wire),
        Step::Forward(body) => Inbound::Forward(body),
    }
}

/// The error for a failed bind of `host:port`.
pub fn bind_error(host: String, port: u16, permission_denied: bool) -> (r: LocalError)
    ensures
        permission_denied ==> (r matches LocalError::PermissionDenied(h, p) && h@ == host@ && p
            == port),
        !permission_denied ==> (r matches LocalError::Unknown(h, p) && h@ == host@ && p == port),
{
    if permission_denied {
        LocalError::PermissionDenied(host, port)
    } else {
        LocalError::Unknown(host, port)
    }
}

} // verus!
