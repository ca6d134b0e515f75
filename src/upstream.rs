use vstd::prelude::*;

use crate::cache::{DEFAULT_CAPACITY, elapsed, key_of, lemma_hit_returns_request_id, min_ttl, Cache, CacheView};
use crate::error::UpstreamError;
use crate::message::{decoded, DnsMessage, MessageView};

verus! {

/// What the transport does with a request.
pub enum Step {
    /// The cache answered: this is the reply.
    Answer(DnsMessage),
    /// The cache did not answer: POST these bytes to the resolver.
    Forward(Vec<u8>),
}

/// The upstream DoH transport: the resolver's host and port, and the
/// response cache in front of it.
pub struct HttpsClient {
    pub host: String,
    pub port: u16,
    pub cache: Cache,
}

impl HttpsClient {
    /// A transport to `host:port` with an empty cache of default capacity.
    pub fn new(host: String, port: u16) -> (r: HttpsClient)
        ensures
            r.host@ == host@,
            r.port == port,
            r.cache@.items.len() == 0,
            r.cache@.capacity == DEFAULT_CAPACITY,
            r.cache@.wf(),
    {
        HttpsClient { host, port, cache: Cache::new() }
    }

    /// The first half of processing a request at time `now` (milliseconds on
    /// the cache's clock): the cache is consulted, and either answers or the
    /// request's wire form is to be sent upstream.
    pub fn process_at(&mut self, request: &DnsMessage, now: u64) -> (r: Step)
        requires
            old(self).cache@.wf(),
            request@.wf(),
        ensures
            final(self).cache@.wf(),
            final(self).host == old(self).host,
            final(self).port == old(self).port,
            final(self).cache@ == old(self).cache@.get(request@, now).0,
            match r {
                Step::Answer(m) => old(self).cache@.get(request@, now).1 == Some(m@),
                Step::Forward(body) => old(self).cache@.get(request@, now).1 is None && body@
                    == request@.wire,
            },
    {
        match self.cache.get_at(request, now) {
            Some(m) => Step::Answer(m),
            None => Step::Forward(request.wire.clone()),
        }
    }

    /// `process_at` at the current time.
    pub fn process(&mut self, request: &DnsMessage) -> (r: Step)
        requires
            old(self).cache@.wf(),
            request@.wf(),
        ensures
            final(self).cache@.wf(),
            final(self).host == old(self).host,
            final(self).port == old(self).port,
            exists|now: u64|
                {
                    let (c, hit) = #[trigger] old(self).cache@.get(request@, now);
                    &&& final(self).cache@ == c
                    &&& match r {
                        Step::Answer(m) => hit == Some(m@),
                        Step::Forward(body) => hit is None && body@ == request@.wire,
                    }
                },
    {
        let now = self.cache.now();
        self.process_at(request, now)
    }

    /// The second half, at time `now`: `response` is the body that the
    /// resolver returned, or why none came. A body that decodes is stored in
    /// the cache and returned; anything else fails with `Resolve`.
    pub fn finish_at(&mut self, response: Result<Vec<u8>, String>, now: u64) -> (r: Result<
        DnsMessage,
        UpstreamError,
    >)
        requires
            old(self).cache@.wf(),
        ensures
            final(self).cache@.wf(),
            final(self).host == old(self).host,
            final(self).port == old(self).port,
            match response {
                Ok(body) => match decoded(body@) {
                    Some(parts) => r matches Ok(m) && m@ == reply_view(body@) && m@.wf()
                        && final(self).cache@ == old(self).cache@.put(m@, now),
                    None => r matches Err(UpstreamError::Resolve) && final(self).cache@ == old(
                        self,
                    ).cache@,
                },
                Err(_) => r matches Err(UpstreamError::Resolve) && final(self).cache@ == old(
                    self,
                ).cache@,
            },
    {
        let body = match response {
            Ok(body) => body,
            Err(_) => return Err(UpstreamError::Resolve),
        };
        match DnsMessage::decode(body) {
            Ok(m) => {
                let stored = m.duplicate();
                self.cache.put_at(stored, now);
                Ok(m)
            },
            Err(_) => Err(UpstreamError::Resolve),
        }
    }

    /// `finish_at` at the current time.
    pub fn finish(&mut self, response: Result<Vec<u8>, String>) -> (r: Result<
        DnsMessage,
        UpstreamError,
    >)
        requires
            old(self).cache@.wf(),
        ensures
            final(self).cache@.wf(),
            final(self).host == old(self).host,
            final(self).port == old(self).port,
            match response {
                Ok(body) => match decoded(body@) {
                    Some(parts) => r matches Ok(m) && m@ == reply_view(body@) && exists|now: u64|
                        final(self).cache@ == #[trigger] old(self).cache@.put(m@, now),
                    None => r matches Err(UpstreamError::Resolve) && final(self).cache@ == old(
                        self,
                    ).cache@,
                },
                Err(_) => r matches Err(UpstreamError::Resolve) && final(self).cache@ == old(
                    self,
                ).cache@,
            },
    {
        let now = self.cache.now();
        self.finish_at(response, now)
    }
}

/// The message that a resolver's reply body stands for, where it decodes.
pub open spec fn reply_view(body: Seq<u8>) -> MessageView {
    let parts = decoded(body)->0;
    MessageView { wire: body, query: parts.0, answers: parts.1 }
}

/// Once a reply for a question has been taken in, the same question asked
/// again while that reply is fresh is answered from the cache, under the new
/// request's ID, and nothing is sent upstream.
pub proof fn lemma_repeat_query_answered_from_cache(
    c: CacheView,
    body: Seq<u8>,
    req: MessageView,
    taken_at: u64,
    asked_at: u64,
)
    requires
        c.wf(),
        c.capacity > 0,
        req.wf(),
        decoded(body) is Some,
        body.len() >= 12,
        key_of(reply_view(body)) is Some,
        key_of(req) == key_of(reply_view(body)),
        reply_view(body).answers.len() > 0,
        elapsed(taken_at, asked_at) < min_ttl(reply_view(body).answers) as int * 1000,
    ensures
        c.put(reply_view(body), taken_at).get(req, asked_at).1 == Some(
            reply_view(body).with_id(req.id()),
        ),
{
    lemma_hit_returns_request_id(c, reply_view(body), req, taken_at, asked_at);
}

} // verus!
