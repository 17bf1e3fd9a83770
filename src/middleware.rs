use vstd::prelude::*;

use crate::error::Error;
use crate::request::Request;
use crate::response::Response;

verus! {

/// What a middleware does with an outgoing request.
pub enum Step {
    /// Pass the (possibly rewritten) request on to the rest of the chain.
    Next(Request),
    /// Answer without calling the rest of the chain.
    Respond(Result<Response, Error>),
}

/// An interceptor in the request/response chain.
///
/// On the way in it sees the request and either passes it on or answers it;
/// on the way out it sees what the rest of the chain produced and may change it.
/// Each handler does what its spec function says of the value handed to it.
pub trait Middleware {
    /// What this middleware makes of the request `req`.
    spec fn spec_on_request(&self, req: Request) -> Step;

    /// What this middleware makes of the result `res` coming back.
    spec fn spec_on_response(&self, res: Result<Response, Error>) -> Result<Response, Error>;

    fn handle_request(&self, req: Request) -> (r: Step)
        ensures
            r == self.spec_on_request(req),
    ;

    fn handle_response(&self, res: Result<Response, Error>) -> (r: Result<Response, Error>)
        ensures
            r == self.spec_on_response(res),
    ;
}

/// One call into a middleware, by its position in the chain.
#[derive(Debug, Clone, Copy, PartialEq, Eq, Structural)]
pub enum Visit {
    Inbound(usize),
    Outbound(usize),
}

/// Inbound calls to the first `k` middlewares, first to last.
pub open spec fn inbound_visits(k: nat) -> Seq<Visit> {
    Seq::new(k, |i: int| Visit::Inbound(i as usize))
}

/// Outbound calls to the first `k` middlewares, last to first.
pub open spec fn outbound_visits(k: nat) -> Seq<Visit> {
    Seq::new(k, |i: int| Visit::Outbound((k - 1 - i) as usize))
}

/// Where the inbound pass ended.
pub enum Inbound {
    /// Every middleware passed the request on; this is what reached the end.
    Reached(Request),
    /// The middleware at `index` answered; the ones after it were not called.
    Answered { index: usize, result: Result<Response, Error> },
}

/// The inbound pass from position `i` on: each middleware gets the request as
/// rewritten by those before it, until the first that answers.
pub open spec fn inbound_from<M: Middleware>(chain: Seq<M>, i: nat, req: Request) -> Inbound
    decreases chain.len() - i,
{
    if i >= chain.len() {
        Inbound::Reached(req)
    } else {
        match chain[i as int].spec_on_request(req) {
            Step::Next(next) => inbound_from(chain, i + 1, next),
            Step::Respond(result) => Inbound::Answered { index: i as usize, result },
        }
    }
}

/// The result `res` after passing outward through the first `count`
/// middlewares, last to first.
pub open spec fn outbound_through<M: Middleware>(
    chain: Seq<M>,
    count: nat,
    res: Result<Response, Error>,
) -> Result<Response, Error>
    decreases count,
{
    if count == 0 || count > chain.len() {
        res
    } else {
        outbound_through(chain, (count - 1) as nat, chain[count - 1].spec_on_response(res))
    }
}

/// A middleware that passes everything on unchanged.
#[derive(Debug, Clone, Copy, PartialEq, Eq)]
pub struct Forward;

impl Middleware for Forward {
    open spec fn spec_on_request(&self, req: Request) -> Step {
        Step::Next(req)
    }

    open spec fn spec_on_response(&self, res: Result<Response, Error>) -> Result<Response, Error> {
        res
    }

    fn handle_request(&self, req: Request) -> (r: Step) {
        Step::Next(req)
    }

    fn handle_response(&self, res: Result<Response, Error>) -> (r: Result<Response, Error>) {
        res
    }
}

/// A chain of middlewares that pass everything on hands the request to the
/// end unchanged.
pub proof fn lemma_forwarding_inbound(chain: Seq<Forward>, i: nat, req: Request)
    ensures
        inbound_from(chain, i, req) == Inbound::Reached(req),
    decreases chain.len() - i,
{
    if i < chain.len() {
        lemma_forwarding_inbound(chain, i + 1, req);
    }
}

/// A chain of middlewares that pass everything on hands any result back
/// unchanged.
pub proof fn lemma_forwarding_outbound(chain: Seq<Forward>, count: nat, res: Result<Response, Error>)
    ensures
        outbound_through(chain, count, res) == res,
    decreases count,
{
    if count > 0 && count <= chain.len() {
        lemma_forwarding_outbound(chain, (count - 1) as nat, res);
    }
}

/// Calls the middlewares in order on the request until one answers or all
/// have passed it on, logging each call.
pub fn run_inbound<M: Middleware>(chain: &Vec<M>, req: Request, log: &mut Vec<Visit>) -> (r:
    Inbound)
    ensures
        r == inbound_from(chain@, 0, req),
        r is Reached ==> final(log)@ == old(log)@ + inbound_visits(chain@.len()),
        r is Answered ==> r->index < chain@.len() && final(log)@ == old(log)@ + inbound_visits(
            r->index as nat + 1,
        ),
{
    let ghost start = log@;
    let mut current = req;
    let mut i: usize = 0;
    while i < chain.len()
        invariant
            i <= chain@.len(),
            start == old(log)@,
            log@ == start + inbound_visits(i as nat),
            inbound_from(chain@, i as nat, current) == inbound_from(chain@, 0, req),
        decreases chain@.len() - i,
    {
        log.push(Visit::Inbound(i));
        assert(log@ =~= start + inbound_visits(i as nat + 1));
        match chain[i].handle_request(current) {
            Step::Next(next) => {
                current = next;
            },
            Step::Respond(result) => {
                return Inbound::Answered { index: i, result };
            },
        }
        i += 1;
    }
    Inbound::Reached(current)
}

/// Hands `res` outward through the first `count` middlewares, last to first,
/// logging each call.
pub fn run_outbound<M: Middleware>(
    chain: &Vec<M>,
    count: usize,
    res: Result<Response, Error>,
    log: &mut Vec<Visit>,
) -> (r: Result<Response, Error>)
    requires
        count <= chain@.len(),
    ensures
        r == outbound_through(chain@, count as nat, res),
        final(log)@ == old(log)@ + outbound_visits(count as nat),
{
    let ghost start = log@;
    let mut current = res;
    let mut i: usize = count;
    while i > 0
        invariant
            i <= count <= chain@.len(),
            start == old(log)@,
            outbound_through(chain@, i as nat, current) == outbound_through(
                chain@,
                count as nat,
                res,
            ),
            log@ == start + Seq::new(
                (count - i) as nat,
                |j: int| Visit::Outbound((count - 1 - j) as usize),
            ),
        decreases i,
    {
        i -= 1;
        log.push(Visit::Outbound(i));
        assert(log@ =~= start + Seq::new(
            (count - i) as nat,
            |j: int| Visit::Outbound((count - 1 - j) as usize),
        ));
        current = chain[i].handle_response(current);
    }
    assert(log@ =~= start + outbound_visits(count as nat));
    current
}

} // verus!
