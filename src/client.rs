use vstd::prelude::*;

use crate::error::Error;
use crate::middleware::{
    inbound_from, inbound_visits, outbound_through, outbound_visits, run_inbound, run_outbound,
    Forward, Inbound, Middleware, Visit, lemma_forwarding_inbound, lemma_forwarding_outbound,
};
use crate::protocol::{headers_view, HttpRequest, HttpResult};
use crate::request::{materialized, operation_view, Request};
use crate::response::Response;

verus! {

/// What the chain makes of the executor's reply before any middleware sees
/// it: the response as reported, or a transport error with the executor's
/// message.
pub open spec fn received(reply: HttpResult) -> Result<Response, Error> {
    match reply {
        HttpResult::Response(h) => Ok(Response::spec_from_http(h)),
        HttpResult::Failure(m) => Err(Error::Transport(m)),
    }
}

/// Whether `res` carries exactly what the executor reported: its status,
/// headers and body, or a transport error with its message.
pub open spec fn received_as(res: Result<Response, Error>, reply: HttpResult) -> bool {
    match reply {
        HttpResult::Response(h) => res is Ok && res->Ok_0.spec_status() == h.status
            && res->Ok_0.spec_headers() == headers_view(h.headers@) && res->Ok_0.spec_body()
            == h.body@,
        HttpResult::Failure(m) => res == Err::<Response, Error>(Error::Transport(m)),
    }
}

/// The chain's result for a reply carries what the executor reported.
pub proof fn lemma_received(reply: HttpResult)
    ensures
        received_as(received(reply), reply),
{
    if let HttpResult::Response(h) = reply {
        Response::lemma_from_http_fields(h);
    }
}

/// Turns the executor's reply into the chain's result.
pub fn receive(reply: HttpResult) -> (r: Result<Response, Error>)
    ensures
        r == received(reply),
        received_as(r, reply),
{
    proof {
        lemma_received(reply);
    }
    match reply {
        HttpResult::Response(h) => Ok(Response::from_http(h)),
        HttpResult::Failure(m) => Err(Error::Transport(m)),
    }
}

/// Taking an element out of a sequence without duplicates takes exactly that
/// value out of its set.
proof fn lemma_remove_from_set(s: Seq<u64>, i: int)
    requires
        0 <= i < s.len(),
        s.no_duplicates(),
    ensures
        s.remove(i).to_set() == s.to_set().remove(s[i]),
        s.remove(i).no_duplicates(),
{
    let t = s.remove(i);
    assert forall|x: u64| t.contains(x) <==> (s.contains(x) && x != s[i]) by {
        if t.contains(x) {
            let j = choose|j: int| 0 <= j < t.len() && t[j] == x;
            if j < i {
                assert(s[j] == x);
            } else {
                assert(s[j + 1] == x);
            }
        }
        if s.contains(x) && x != s[i] {
            let j = choose|j: int| 0 <= j < s.len() && s[j] == x;
            if j < i {
                assert(t[j] == x);
            } else {
                assert(t[j - 1] == x);
            }
        }
    }
    assert(t.to_set() =~= s.to_set().remove(s[i]));
}

/// The outcome of sending one request through the chain.
pub enum Sent {
    /// Every middleware passed the request on: `operation` goes to the
    /// executor, and its reply is to be handed back under `token`.
    Dispatched { token: u64, operation: HttpRequest, log: Vec<Visit> },
    /// A middleware answered; nothing goes to the executor.
    Answered { result: Result<Response, Error>, log: Vec<Visit> },
}

/// A finished request: its token and what the chain delivered for it.
pub struct Delivery {
    pub token: u64,
    pub result: Result<Response, Error>,
    pub log: Vec<Visit>,
}

/// Drives the middleware chain and keeps the requests that await a reply.
pub struct Client<M> {
    chain: Vec<M>,
    pending: Vec<u64>,
    next_token: u64,
}

impl<M: Middleware> Client<M> {
    /// The tokens of the requests that await a reply.
    pub closed spec fn pending_tokens(&self) -> Set<u64> {
        self.pending@.to_set()
    }

    /// The number of middlewares in the chain.
    pub open spec fn chain_len(&self) -> nat {
        self.spec_chain().len()
    }

    /// The token the next dispatched request gets.
    pub closed spec fn spec_next_token(&self) -> u64 {
        self.next_token
    }

    pub closed spec fn wf(&self) -> bool {
        &&& self.pending@.no_duplicates()
        &&& forall|i: int| 0 <= i < self.pending@.len() ==> self.pending@[i] < self.next_token
    }

    /// The middlewares of the chain, first to last.
    pub closed spec fn spec_chain(&self) -> Seq<M> {
        self.chain@
    }

    /// What sending `req` did, taking `before` to `after` with outcome `r`:
    /// the request is dispatched exactly when every middleware passes it on,
    /// as the operation of the request that reached the end; otherwise the
    /// first middleware that answered gives the answer, which passes back out
    /// through the middlewares before it.
    pub open spec fn sent_as(before: Self, after: Self, req: Request, r: Sent) -> bool {
        &&& after.spec_chain() == before.spec_chain()
        &&& match inbound_from(before.spec_chain(), 0, req) {
            Inbound::Reached(reached) => match r {
                Sent::Dispatched { token, operation, log } => {
                    &&& operation_view(operation) == materialized(reached)
                    &&& token == before.spec_next_token()
                    &&& after.spec_next_token() == token + 1
                    &&& !before.pending_tokens().contains(token)
                    &&& after.pending_tokens() == before.pending_tokens().insert(token)
                    &&& log@ == inbound_visits(before.chain_len())
                },
                Sent::Answered { .. } => false,
            },
            Inbound::Answered { index, result: answer } => match r {
                Sent::Answered { result, log } => {
                    &&& result == outbound_through(before.spec_chain(), index as nat, answer)
                    &&& after.spec_next_token() == before.spec_next_token()
                    &&& after.pending_tokens() == before.pending_tokens()
                    &&& index < before.chain_len()
                    &&& log@ == inbound_visits(index as nat + 1) + outbound_visits(index as nat)
                },
                Sent::Dispatched { .. } => false,
            },
        }
    }

    /// What handing back `reply` for `token` did, taking `before` to `after`
    /// with outcome `r`.
    pub open spec fn resolved_as(
        before: Self,
        after: Self,
        token: u64,
        reply: HttpResult,
        r: Option<Delivery>,
    ) -> bool {
        &&& after.spec_chain() == before.spec_chain()
        &&& after.spec_next_token() == before.spec_next_token()
        &&& after.pending_tokens() == before.pending_tokens().remove(token)
        &&& (r is Some <==> before.pending_tokens().contains(token))
        &&& match r {
            Some(d) => {
                &&& d.token == token
                &&& d.log@ == outbound_visits(before.chain_len())
                &&& d.result == outbound_through(
                    before.spec_chain(),
                    before.chain_len(),
                    received(reply),
                )
                &&& before.chain_len() == 0 ==> received_as(d.result, reply)
            },
            None => true,
        }
    }

    /// Whether the token counter has room for another request.
    pub fn has_room(&self) -> (r: bool)
        ensures
            r == (self.spec_next_token() < u64::MAX),
    {
        self.next_token < u64::MAX
    }

    /// A client with the given chain, first middleware first.
    pub fn new(chain: Vec<M>) -> (c: Client<M>)
        ensures
            c.wf(),
            c.spec_chain() == chain@,
            c.chain_len() == chain@.len(),
            c.spec_next_token() == 0,
            c.pending_tokens() == Set::<u64>::empty(),
    {
        let c = Client { chain, pending: Vec::new(), next_token: 0 };
        assert(c.pending@.to_set() =~= Set::<u64>::empty());
        c
    }

    /// Whether a reply under `token` is still awaited.
    pub fn is_pending(&self, token: u64) -> (r: bool)
        ensures
            r == self.pending_tokens().contains(token),
    {
        let mut i: usize = 0;
        while i < self.pending.len()
            invariant
                i <= self.pending@.len(),
                forall|j: int| 0 <= j < i ==> self.pending@[j] != token,
            decreases self.pending@.len() - i,
        {
            if self.pending[i] == token {
                assert(self.pending@.to_set().contains(self.pending@[i as int]));
                return true;
            }
            i += 1;
        }
        proof {
            if self.pending@.to_set().contains(token) {
                let j = choose|j: int| 0 <= j < self.pending@.len() && self.pending@[j] == token;
            }
        }
        false
    }

    /// Runs `req` through the chain. Where every middleware passes it on, the
    /// resulting operation is registered under a fresh token and returned for
    /// the executor; where one answers, that answer travels back out through
    /// the middlewares before it and nothing is dispatched.
    pub fn send(&mut self, req: Request) -> (r: Sent)
        requires
            old(self).wf(),
            old(self).spec_next_token() < u64::MAX,
        ensures
            final(self).wf(),
            final(self).chain_len() == old(self).chain_len(),
            Self::sent_as(*old(self), *final(self), req, r),
    {
        let mut log: Vec<Visit> = Vec::new();
        match run_inbound(&self.chain, req, &mut log) {
            Inbound::Reached(reached) => {
                let operation = reached.to_operation();
                let token = self.next_token;
                proof {
                    assert(!self.pending@.contains(token));
                }
                let ghost before = self.pending@;
                self.pending.push(token);
                self.next_token = token + 1;
                proof {
                    assert forall|x: u64|
                        self.pending@.contains(x) <==> (before.contains(x) || x == token) by {
                        if before.contains(x) {
                            let j = choose|j: int| 0 <= j < before.len() && before[j] == x;
                            assert(self.pending@[j] == x);
                        }
                        if x == token {
                            assert(self.pending@[before.len() as int] == token);
                        }
                        if self.pending@.contains(x) {
                            let j = choose|j: int|
                                0 <= j < self.pending@.len() && self.pending@[j] == x;
                            if j < before.len() {
                                assert(before[j] == x);
                            }
                        }
                    }
                    assert(self.pending@.to_set() =~= before.to_set().insert(token));
                    assert(self.pending@.no_duplicates()) by {
                        assert forall|a: int, b: int|
                            0 <= a < b < self.pending@.len() implies self.pending@[a]
                            != self.pending@[b] by {
                            if b == before.len() {
                                assert(before[a] < token);
                            }
                        }
                    }
                }
                Sent::Dispatched { token, operation, log }
            },
            Inbound::Answered { index, result } => {
                let ghost first = log@;
                assert(first == Seq::<Visit>::empty() + inbound_visits(index as nat + 1));
                let result = run_outbound(&self.chain, index, result, &mut log);
                assert(log@ =~= inbound_visits(index as nat + 1) + outbound_visits(index as nat));
                Sent::Answered { result, log }
            },
        }
    }

    /// Hands the executor's reply for `token` back through the chain, last
    /// middleware first. A token that is not awaited (never issued, or already
    /// answered) delivers nothing, so each request is delivered at most once.
    pub fn resolve(&mut self, token: u64, reply: HttpResult) -> (r: Option<Delivery>)
        requires
            old(self).wf(),
        ensures
            final(self).wf(),
            Self::resolved_as(*old(self), *final(self), token, reply, r),
    {
        let mut i: usize = 0;
        while i < self.pending.len()
            invariant
                i <= self.pending@.len(),
                forall|j: int| 0 <= j < i ==> self.pending@[j] != token,
            ensures
                i <= self.pending@.len(),
                i < self.pending@.len() ==> self.pending@[i as int] == token,
                forall|j: int| 0 <= j < i ==> self.pending@[j] != token,
            decreases self.pending@.len() - i,
        {
            if self.pending[i] == token {
                break;
            }
            i += 1;
        }
        if i == self.pending.len() {
            proof {
                if self.pending@.to_set().contains(token) {
                    let j = choose|j: int|
                        0 <= j < self.pending@.len() && self.pending@[j] == token;
                }
                assert(self.pending@.to_set() =~= self.pending@.to_set().remove(token));
            }
            return None;
        }
        let ghost before = self.pending@;
        proof {
            lemma_remove_from_set(before, i as int);
        }
        self.pending.remove(i);
        assert(before.to_set().contains(token));
        let mut log: Vec<Visit> = Vec::new();
        let first = receive(reply);
        let result = run_outbound(&self.chain, self.chain.len(), first, &mut log);
        assert(log@ =~= outbound_visits(self.chain@.len()));
        Some(Delivery { token, result, log })
    }
}

} // verus!

verus! {

/// A request that every middleware passes on is dispatched; when its reply
/// comes back, the middlewares are visited first to last on the way in, then
/// last to first on the way out, each outbound one getting what the one after
/// it returned.
pub proof fn lemma_middleware_order<M: Middleware>(
    c0: Client<M>,
    c1: Client<M>,
    c2: Client<M>,
    req: Request,
    sent: Sent,
    reply: HttpResult,
    d: Option<Delivery>,
)
    requires
        Client::<M>::sent_as(c0, c1, req, sent),
        inbound_from(c0.spec_chain(), 0, req) is Reached,
        Client::<M>::resolved_as(c1, c2, sent->token, reply, d),
    ensures
        sent is Dispatched,
        d is Some,
        d->0.result == outbound_through(c0.spec_chain(), c0.chain_len(), received(reply)),
        ({
            let n = c0.chain_len() as int;
            let full = sent->Dispatched_log@ + d->0.log@;
            &&& full == inbound_visits(n as nat) + outbound_visits(n as nat)
            &&& full.len() == 2 * n
            &&& forall|i: int| 0 <= i < n ==> #[trigger] full[i] == Visit::Inbound(i as usize)
            &&& forall|j: int|
                n <= j < 2 * n ==> #[trigger] full[j] == Visit::Outbound((2 * n - 1 - j) as usize)
        }),
{
    let n = c0.chain_len() as int;
    let full = sent->Dispatched_log@ + d->0.log@;
    assert forall|j: int| n <= j < 2 * n implies #[trigger] full[j] == Visit::Outbound(
        (2 * n - 1 - j) as usize,
    ) by {
        assert(full[j] == d->0.log@[j - n]);
    }
}

/// A request that a middleware answers is never dispatched: no token is used,
/// the requests awaiting the executor stay as they were, the middlewares after
/// the first one that answered are not called, and the caller gets that answer
/// as passed back out through the middlewares before it.
pub proof fn lemma_short_circuit<M: Middleware>(c0: Client<M>, c1: Client<M>, req: Request, sent: Sent)
    requires
        Client::<M>::sent_as(c0, c1, req, sent),
        inbound_from(c0.spec_chain(), 0, req) is Answered,
    ensures
        sent is Answered,
        c1.pending_tokens() == c0.pending_tokens(),
        c1.spec_next_token() == c0.spec_next_token(),
        ({
            let k = inbound_from(c0.spec_chain(), 0, req)->index as nat;
            &&& sent->Answered_result == outbound_through(
                c0.spec_chain(),
                k,
                inbound_from(c0.spec_chain(), 0, req)->Answered_result,
            )
            &&& forall|i: int|
                0 <= i < sent->Answered_log@.len() && (#[trigger] sent->Answered_log@[i]) is Inbound
                    ==> sent->Answered_log@[i]->Inbound_0 <= k
        }),
{
    let k = inbound_from(c0.spec_chain(), 0, req)->index as nat;
    let log = sent->Answered_log@;
    assert forall|i: int| 0 <= i < log.len() && (#[trigger] log[i]) is Inbound implies log[i]->Inbound_0
        <= k by {
        if i <= k {
            assert(log[i] == Visit::Inbound(i as usize));
        } else {
            assert(log[i] == outbound_visits(k)[i - k - 1]);
        }
    }
}

/// When the first middleware answers `req` by itself, the caller gets exactly
/// that answer and nothing is dispatched.
pub proof fn lemma_first_answers<M: Middleware>(
    c0: Client<M>,
    c1: Client<M>,
    req: Request,
    sent: Sent,
)
    requires
        Client::<M>::sent_as(c0, c1, req, sent),
        c0.chain_len() > 0,
        c0.spec_chain()[0].spec_on_request(req) is Respond,
    ensures
        sent is Answered,
        sent->Answered_result == c0.spec_chain()[0].spec_on_request(req)->Respond_0,
        sent->Answered_log@ == seq![Visit::Inbound(0)],
        c1.pending_tokens() == c0.pending_tokens(),
{
    assert(inbound_visits(1) =~= seq![Visit::Inbound(0)]);
    assert(outbound_visits(0) =~= Seq::<Visit>::empty());
    assert(sent->Answered_log@ =~= seq![Visit::Inbound(0)]);
}

/// A transport failure reaches the caller as a transport error with the
/// executor's message when no middleware changes it: always with an empty
/// chain, and in general it is what the middlewares make of that error.
pub proof fn lemma_transport_failure<M: Middleware>(
    c1: Client<M>,
    c2: Client<M>,
    token: u64,
    message: String,
    d: Option<Delivery>,
)
    requires
        Client::<M>::resolved_as(c1, c2, token, HttpResult::Failure(message), d),
        d is Some,
    ensures
        d->0.result == outbound_through(
            c1.spec_chain(),
            c1.chain_len(),
            Err(Error::Transport(message)),
        ),
        c1.chain_len() == 0 ==> d->0.result == Err::<Response, Error>(Error::Transport(message)),
{
}

/// Each awaited request is delivered exactly once: the first reply under its
/// token is delivered, any later one is not, and handing back one token leaves
/// every other request's state alone.
pub proof fn lemma_delivered_once<M: Middleware>(
    c0: Client<M>,
    c1: Client<M>,
    c2: Client<M>,
    token: u64,
    other: u64,
    first: HttpResult,
    second: HttpResult,
    r1: Option<Delivery>,
    r2: Option<Delivery>,
)
    requires
        Client::<M>::resolved_as(c0, c1, token, first, r1),
        Client::<M>::resolved_as(c1, c2, token, second, r2),
        other != token,
    ensures
        c0.pending_tokens().contains(token) ==> r1 is Some,
        r2 is None,
        c1.pending_tokens().contains(other) == c0.pending_tokens().contains(other),
{
}

/// Tokens handed out by two successive dispatches differ.
pub proof fn lemma_fresh_tokens<M: Middleware>(
    c0: Client<M>,
    c1: Client<M>,
    c2: Client<M>,
    req1: Request,
    req2: Request,
    s1: Sent,
    s2: Sent,
)
    requires
        Client::<M>::sent_as(c0, c1, req1, s1),
        Client::<M>::sent_as(c1, c2, req2, s2),
        s1 is Dispatched,
        s2 is Dispatched,
    ensures
        s1->token != s2->token,
        c2.pending_tokens().contains(s1->token),
        c2.pending_tokens().contains(s2->token),
{
}

} // verus!

verus! {

/// Through a chain of middlewares that pass everything on, the executor gets
/// exactly the operation of the request as built, and the caller gets exactly
/// the executor's reply.
pub proof fn lemma_forwarding_pipeline(
    c0: Client<Forward>,
    c1: Client<Forward>,
    c2: Client<Forward>,
    req: Request,
    sent: Sent,
    reply: HttpResult,
    d: Option<Delivery>,
)
    requires
        Client::<Forward>::sent_as(c0, c1, req, sent),
        Client::<Forward>::resolved_as(c1, c2, sent->token, reply, d),
    ensures
        sent is Dispatched,
        operation_view(sent->operation) == materialized(req),
        d is Some,
        d->0.result == received(reply),
        received_as(d->0.result, reply),
{
    lemma_received(reply);
    lemma_forwarding_inbound(c0.spec_chain(), 0, req);
    lemma_forwarding_outbound(c0.spec_chain(), c0.chain_len(), received(reply));
}

} // verus!

verus! {

/// Which of the replies, handed back under `tokens` in this order to a client
/// awaiting `pending`, are delivered.
pub open spec fn delivered_flags(pending: Set<u64>, tokens: Seq<u64>) -> Seq<bool>
    decreases tokens.len(),
{
    if tokens.len() == 0 {
        Seq::empty()
    } else {
        seq![pending.contains(tokens[0])] + delivered_flags(
            pending.remove(tokens[0]),
            tokens.drop_first(),
        )
    }
}

proof fn lemma_flags(pending: Set<u64>, tokens: Seq<u64>)
    ensures
        delivered_flags(pending, tokens).len() == tokens.len(),
        forall|i: int|
            0 <= i < tokens.len() && #[trigger] delivered_flags(pending, tokens)[i]
                ==> pending.contains(tokens[i]),
        forall|i: int, j: int|
            #![trigger tokens[i], tokens[j]]
            0 <= i < j < tokens.len() && tokens[i] == tokens[j] ==> !delivered_flags(
                pending,
                tokens,
            )[j],
        forall|i: int|
            0 <= i < tokens.len() && pending.contains(tokens[i]) && (forall|k: int|
                0 <= k < i ==> tokens[k] != tokens[i]) ==> #[trigger] delivered_flags(
                pending,
                tokens,
            )[i],
    decreases tokens.len(),
{
    if tokens.len() > 0 {
        let rest = tokens.drop_first();
        let p2 = pending.remove(tokens[0]);
        lemma_flags(p2, rest);
        let f = delivered_flags(pending, tokens);
        let g = delivered_flags(p2, rest);
        assert forall|i: int| 0 < i < tokens.len() implies f[i] == g[i - 1] && tokens[i] == rest[i
            - 1] by {}
        assert forall|i: int| 0 <= i < tokens.len() && #[trigger] f[i] implies pending.contains(
            tokens[i],
        ) by {
            if i > 0 {
                assert(g[i - 1]);
            }
        }
        assert forall|i: int, j: int|
            #![trigger tokens[i], tokens[j]]
            0 <= i < j < tokens.len() && tokens[i] == tokens[j] implies !f[j] by {
            if i == 0 {
                if g[j - 1] {
                    assert(p2.contains(rest[j - 1]));
                }
            } else {
                assert(rest[i - 1] == rest[j - 1]);
                assert(!g[j - 1]);
            }
        }
        assert forall|i: int|
            0 <= i < tokens.len() && pending.contains(tokens[i]) && (forall|k: int|
                0 <= k < i ==> tokens[k] != tokens[i]) implies #[trigger] f[i] by {
            if i > 0 {
                assert(tokens[0] != tokens[i]);
                assert(p2.contains(rest[i - 1]));
                assert forall|k: int| 0 <= k < i - 1 implies #[trigger] rest[k] != rest[i - 1] by {
                    assert(tokens[k + 1] != tokens[i]);
                }
                assert(g[i - 1]);
            }
        }
    }
}

proof fn lemma_resolutions_follow_flags<M: Middleware>(
    states: Seq<Client<M>>,
    tokens: Seq<u64>,
    replies: Seq<HttpResult>,
    outcomes: Seq<Option<Delivery>>,
)
    requires
        states.len() == tokens.len() + 1,
        replies.len() == tokens.len(),
        outcomes.len() == tokens.len(),
        forall|i: int|
            #![trigger outcomes[i]]
            0 <= i < tokens.len() ==> Client::<M>::resolved_as(
                states[i],
                states[i + 1],
                tokens[i],
                replies[i],
                outcomes[i],
            ),
    ensures
        forall|i: int|
            0 <= i < tokens.len() ==> (outcomes[i] is Some <==> #[trigger] delivered_flags(
                states[0].pending_tokens(),
                tokens,
            )[i]),
    decreases tokens.len(),
{
    if tokens.len() > 0 {
        assert(Client::<M>::resolved_as(states[0], states[1], tokens[0], replies[0], outcomes[0]));
        let s2 = states.drop_first();
        let t2 = tokens.drop_first();
        assert forall|i: int| 0 <= i < t2.len() implies #[trigger] Client::<M>::resolved_as(
            s2[i],
            s2[i + 1],
            t2[i],
            replies.drop_first()[i],
            outcomes.drop_first()[i],
        ) by {
            assert(Client::<M>::resolved_as(
                states[i + 1],
                states[i + 2],
                tokens[i + 1],
                replies[i + 1],
                outcomes[i + 1],
            ));
        }
        lemma_resolutions_follow_flags(s2, t2, replies.drop_first(), outcomes.drop_first());
        let f = delivered_flags(states[0].pending_tokens(), tokens);
        assert(s2[0] == states[1]);
        let head = seq![states[0].pending_tokens().contains(tokens[0])];
        let g = delivered_flags(s2[0].pending_tokens(), t2);
        assert(head.len() == 1);
        lemma_flags(s2[0].pending_tokens(), t2);
        assert(f == head + g);
        assert forall|i: int| 0 <= i < tokens.len() implies (outcomes[i] is Some <==> #[trigger] f[i]) by {
            if i > 0 {
                assert((head + g)[i] == g[i - 1]);
                assert(outcomes.drop_first()[i - 1] == outcomes[i]);
            }
        }
    }
}

/// Exactly-once delivery: however the replies to awaited requests arrive,
/// including out of order and with repeats, each awaited request is delivered
/// on the first reply under its token, never a second time, and no reply
/// under a token that was not awaited is delivered.
pub proof fn lemma_exactly_once<M: Middleware>(
    states: Seq<Client<M>>,
    tokens: Seq<u64>,
    replies: Seq<HttpResult>,
    outcomes: Seq<Option<Delivery>>,
)
    requires
        states.len() == tokens.len() + 1,
        replies.len() == tokens.len(),
        outcomes.len() == tokens.len(),
        forall|i: int|
            #![trigger outcomes[i]]
            0 <= i < tokens.len() ==> Client::<M>::resolved_as(
                states[i],
                states[i + 1],
                tokens[i],
                replies[i],
                outcomes[i],
            ),
    ensures
        forall|i: int|
            0 <= i < tokens.len() && #[trigger] outcomes[i] is Some ==> states[0].pending_tokens().contains(
                tokens[i],
            ) && outcomes[i]->0.token == tokens[i],
        forall|i: int, j: int|
            #![trigger tokens[i], tokens[j]]
            0 <= i < j < tokens.len() && tokens[i] == tokens[j] ==> outcomes[j] is None,
        forall|i: int|
            0 <= i < tokens.len() && states[0].pending_tokens().contains(tokens[i]) && (forall|k: int|
                0 <= k < i ==> tokens[k] != tokens[i]) ==> #[trigger] outcomes[i] is Some,
{
    lemma_flags(states[0].pending_tokens(), tokens);
    lemma_resolutions_follow_flags(states, tokens, replies, outcomes);
    let f = delivered_flags(states[0].pending_tokens(), tokens);
    assert forall|i: int| 0 <= i < tokens.len() && #[trigger] outcomes[i] is Some implies states[0].pending_tokens().contains(
        tokens[i],
    ) && outcomes[i]->0.token == tokens[i] by {
        assert(Client::<M>::resolved_as(states[i], states[i + 1], tokens[i], replies[i], outcomes[i]));
        assert(f[i]);
    }
    assert forall|i: int, j: int|
        #![trigger tokens[i], tokens[j]]
        0 <= i < j < tokens.len() && tokens[i] == tokens[j] implies outcomes[j] is None by {
        assert(!f[j]);
    }
    assert forall|i: int|
        0 <= i < tokens.len() && states[0].pending_tokens().contains(tokens[i]) && (forall|k: int|
            0 <= k < i ==> tokens[k] != tokens[i]) implies #[trigger] outcomes[i] is Some by {
        assert(f[i]);
    }
}

} // verus!
