//! One status query as a machine of decisions.
//!
//! The query talks to the network through its caller. It hands out an
//! [`Action`], the caller performs it and reports what happened as an
//! [`Event`] together with a reading of a clock, and [`Query::step`] decides
//! what comes next. Clock readings and waits share one unit of the caller's
//! choosing; the clock should not run backwards.

use vstd::prelude::*;
use crate::codec::{decode_pong, decode_pong_spec, encode_ping, ping_to_wire, Ping, Pong, PING_KIND};

verus! {

/// Why a query ended without a usable answer.
#[derive(Clone, Copy, Debug, PartialEq, Eq, Structural)]
pub enum QueryError {
    /// No matching answer arrived within any attempt.
    Timeout,
    /// Sending or receiving itself failed.
    Transport,
    /// A matching answer arrived whose counts contradict each other.
    Inconsistent,
    /// The caller called the query off.
    Cancelled,
}

/// What a datagram means to a query that waits for the answer to `identifier`.
#[derive(Clone, Copy, Debug, PartialEq, Eq, Structural)]
pub enum Verdict {
    /// Not an answer to this query: wrong length or another identifier.
    Discard,
    /// The answer, with counts that agree.
    Accept(Pong),
    /// The answer, but with more users connected than there are slots.
    Inconsistent(Pong),
}

/// The verdict on a datagram.
pub open spec fn judge_spec(identifier: u64, bytes: Seq<u8>) -> Verdict {
    match decode_pong_spec(bytes) {
        Err(_) => Verdict::Discard,
        Ok(pong) => if pong.identifier != identifier {
            Verdict::Discard
        } else if pong.consistent() {
            Verdict::Accept(pong)
        } else {
            Verdict::Inconsistent(pong)
        },
    }
}

/// Judges a datagram received while waiting for the answer to `identifier`.
pub fn judge(identifier: u64, bytes: &[u8]) -> (verdict: Verdict)
    ensures
        verdict == judge_spec(identifier, bytes@),
{
    match decode_pong(bytes) {
        Err(_) => Verdict::Discard,
        Ok(pong) => if pong.identifier != identifier {
            Verdict::Discard
        } else if pong.is_consistent() {
            Verdict::Accept(pong)
        } else {
            Verdict::Inconsistent(pong)
        },
    }
}

/// What the caller reports back to the query.
#[derive(Debug, PartialEq, Eq)]
pub enum Event {
    /// A datagram arrived.
    Datagram(Vec<u8>),
    /// The wait ran out and nothing arrived.
    Elapsed,
    /// Sending or receiving failed.
    TransportFailed,
    /// The caller calls the query off.
    Cancelled,
}

/// An event with its datagram as a sequence of bytes.
pub enum EventView {
    Datagram(Seq<u8>),
    Elapsed,
    TransportFailed,
    Cancelled,
}

impl View for Event {
    type V = EventView;

    open spec fn view(&self) -> EventView {
        match *self {
            Event::Datagram(bytes) => EventView::Datagram(bytes@),
            Event::Elapsed => EventView::Elapsed,
            Event::TransportFailed => EventView::TransportFailed,
            Event::Cancelled => EventView::Cancelled,
        }
    }
}

/// What the query asks of its caller.
#[derive(Clone, Copy, Debug, PartialEq, Eq)]
pub enum Action {
    /// Send `datagram` to the server, then wait for a datagram for at most
    /// `wait`. This begins an attempt.
    Send { datagram: [u8; 12], wait: u64 },
    /// Send nothing; go on waiting for a datagram for at most `wait`.
    Wait { wait: u64 },
    /// The query is over, with this result.
    Finish(Result<Pong, QueryError>),
}

/// An action with its datagram as a sequence of bytes.
pub enum ActionView {
    Send { datagram: Seq<u8>, wait: u64 },
    Wait { wait: u64 },
    Finish(Result<Pong, QueryError>),
}

impl View for Action {
    type V = ActionView;

    open spec fn view(&self) -> ActionView {
        match *self {
            Action::Send { datagram, wait } => ActionView::Send { datagram: datagram@, wait },
            Action::Wait { wait } => ActionView::Wait { wait },
            Action::Finish(result) => ActionView::Finish(result),
        }
    }
}

/// A query in progress or finished.
pub struct Query {
    identifier: u64,
    timeout: u64,
    max_attempts: u32,
    attempts: u32,
    deadline: u64,
    outcome: Option<Result<Pong, QueryError>>,
}

/// What a query knows.
pub struct QueryView {
    /// The token that the answer has to echo.
    pub identifier: u64,
    /// How long one attempt waits.
    pub timeout: u64,
    /// How many attempts there may be.
    pub max_attempts: u32,
    /// How many attempts have begun, each with one ping sent.
    pub attempts: u32,
    /// The clock reading at which the current attempt's wait ends.
    pub deadline: u64,
    /// The result, once there is one.
    pub outcome: Option<Result<Pong, QueryError>>,
}

impl View for Query {
    type V = QueryView;

    closed spec fn view(&self) -> QueryView {
        QueryView {
            identifier: self.identifier,
            timeout: self.timeout,
            max_attempts: self.max_attempts,
            attempts: self.attempts,
            deadline: self.deadline,
            outcome: self.outcome,
        }
    }
}

/// `now + timeout`, or the largest clock reading if that is past it.
pub open spec fn deadline_after(now: u64, timeout: u64) -> u64 {
    if now + timeout <= u64::MAX {
        (now + timeout) as u64
    } else {
        u64::MAX
    }
}

impl QueryView {
    /// What holds of every query that `start` made and `step` moved on.
    pub open spec fn wf(self) -> bool {
        &&& self.attempts <= self.max_attempts
        &&& self.outcome is None ==> self.attempts >= 1
        &&& self.outcome matches Some(Ok(pong)) ==> pong.identifier == self.identifier
            && pong.consistent()
    }

    /// Whether the query is over.
    pub open spec fn finished(self) -> bool {
        self.outcome is Some
    }

    /// The ping of this query on the wire.
    pub open spec fn ping(self) -> Seq<u8> {
        ping_to_wire(Ping { kind: PING_KIND, identifier: self.identifier })
    }

    /// The query over, with `result`.
    pub open spec fn finish(self, result: Result<Pong, QueryError>) -> (QueryView, ActionView) {
        (QueryView { outcome: Some(result), ..self }, ActionView::Finish(result))
    }

    /// The current attempt is over without an answer: the next one begins at
    /// `now` if one is left, else the query has timed out.
    pub open spec fn next_attempt(self, now: u64) -> (QueryView, ActionView) {
        if self.attempts < self.max_attempts {
            (
                QueryView {
                    attempts: (self.attempts + 1) as u32,
                    deadline: deadline_after(now, self.timeout),
                    ..self
                },
                ActionView::Send { datagram: self.ping(), wait: self.timeout },
            )
        } else {
            self.finish(Err(QueryError::Timeout))
        }
    }

    /// How long the current attempt may still wait at `now`: what is left
    /// until the deadline, and never more than one whole timeout.
    pub open spec fn remaining(self, now: u64) -> u64 {
        if now >= self.deadline {
            0
        } else if self.deadline - now > self.timeout {
            self.timeout
        } else {
            (self.deadline - now) as u64
        }
    }

    /// The state and the action that follow `event`, reported at `now`.
    pub open spec fn step(self, now: u64, event: EventView) -> (QueryView, ActionView) {
        match self.outcome {
            Some(result) => (self, ActionView::Finish(result)),
            None => match event {
                EventView::Cancelled => self.finish(Err(QueryError::Cancelled)),
                EventView::TransportFailed => self.finish(Err(QueryError::Transport)),
                EventView::Elapsed => self.next_attempt(now),
                EventView::Datagram(bytes) => match judge_spec(self.identifier, bytes) {
                    Verdict::Accept(pong) => self.finish(Ok(pong)),
                    Verdict::Inconsistent(_) => self.finish(Err(QueryError::Inconsistent)),
                    Verdict::Discard => if self.remaining(now) > 0 {
                        (self, ActionView::Wait { wait: self.remaining(now) })
                    } else {
                        self.next_attempt(now)
                    },
                },
            },
        }
    }
}

/// The state and the action with which a query begins at `now`: the first
/// attempt, or a timeout at once where no attempt is allowed.
pub open spec fn start_spec(identifier: u64, timeout: u64, max_attempts: u32, now: u64) -> (
    QueryView,
    ActionView,
) {
    QueryView { identifier, timeout, max_attempts, attempts: 0, deadline: now, outcome: None }
        .next_attempt(now)
}

/// `now + timeout`, stopping at the largest clock reading.
fn deadline_at(now: u64, timeout: u64) -> (deadline: u64)
    ensures
        deadline == deadline_after(now, timeout),
{
    if timeout <= u64::MAX - now {
        now + timeout
    } else {
        u64::MAX
    }
}

impl Query {
    #[verifier::type_invariant]
    spec fn well_formed(self) -> bool {
        self@.wf()
    }

    /// Begins a query for the answer to `identifier`, with at most
    /// `max_attempts` attempts that wait `timeout` each.
    pub fn start(identifier: u64, timeout: u64, max_attempts: u32, now: u64) -> (begun: (
        Query,
        Action,
    ))
        ensures
            (begun.0@, begun.1@) == start_spec(identifier, timeout, max_attempts, now),
            begun.0@.wf(),
    {
        if max_attempts == 0 {
            let result = Err(QueryError::Timeout);
            let query = Query {
                identifier,
                timeout,
                max_attempts,
                attempts: 0,
                deadline: now,
                outcome: Some(result),
            };
            (query, Action::Finish(result))
        } else {
            let query = Query {
                identifier,
                timeout,
                max_attempts,
                attempts: 1,
                deadline: deadline_at(now, timeout),
                outcome: None,
            };
            (query, Action::Send { datagram: encode_ping(identifier), wait: timeout })
        }
    }

    /// Takes in what happened and says what to do next. A finished query
    /// stays as it is and repeats its result.
    pub fn step(&mut self, now: u64, event: &Event) -> (action: Action)
        ensures
            (final(self)@, action@) == old(self)@.step(now, event@),
            old(self)@.wf(),
            final(self)@.wf(),
            action matches Action::Finish(Ok(pong)) ==> pong.identifier == old(self)@.identifier
                && pong.consistent(),
    {
        proof {
            use_type_invariant(&*self);
        }
        if let Some(result) = self.outcome {
            return Action::Finish(result);
        }
        match event {
            Event::Cancelled => self.finish(Err(QueryError::Cancelled)),
            Event::TransportFailed => self.finish(Err(QueryError::Transport)),
            Event::Elapsed => self.next_attempt(now),
            Event::Datagram(bytes) => match judge(self.identifier, bytes.as_slice()) {
                Verdict::Accept(pong) => self.finish(Ok(pong)),
                Verdict::Inconsistent(_) => self.finish(Err(QueryError::Inconsistent)),
                Verdict::Discard => {
                    let wait = self.remaining(now);
                    if wait > 0 {
                        Action::Wait { wait }
                    } else {
                        self.next_attempt(now)
                    }
                },
            },
        }
    }

    /// Ends the query with `result`.
    fn finish(&mut self, result: Result<Pong, QueryError>) -> (action: Action)
        requires
            result matches Ok(pong) ==> pong.identifier == old(self)@.identifier
                && pong.consistent(),
        ensures
            (final(self)@, action@) == old(self)@.finish(result),
    {
        proof {
            use_type_invariant(&*self);
        }
        self.outcome = Some(result);
        Action::Finish(result)
    }

    /// Begins the next attempt at `now` if one is left, else times out.
    fn next_attempt(&mut self, now: u64) -> (action: Action)
        ensures
            (final(self)@, action@) == old(self)@.next_attempt(now),
    {
        proof {
            use_type_invariant(&*self);
        }
        if self.attempts < self.max_attempts {
            self.attempts = self.attempts + 1;
            self.deadline = deadline_at(now, self.timeout);
            Action::Send { datagram: encode_ping(self.identifier), wait: self.timeout }
        } else {
            self.finish(Err(QueryError::Timeout))
        }
    }

    /// How long the current attempt may still wait at `now`.
    fn remaining(&self, now: u64) -> (wait: u64)
        ensures
            wait == self@.remaining(now),
    {
        if now >= self.deadline {
            0
        } else if self.deadline - now > self.timeout {
            self.timeout
        } else {
            self.deadline - now
        }
    }

    /// The token that the answer has to echo.
    pub fn identifier(&self) -> (identifier: u64)
        ensures
            identifier == self@.identifier,
    {
        self.identifier
    }

    /// How many attempts have begun.
    pub fn attempts(&self) -> (attempts: u32)
        ensures
            attempts == self@.attempts,
    {
        self.attempts
    }

    /// The result, once there is one.
    pub fn outcome(&self) -> (outcome: Option<Result<Pong, QueryError>>)
        ensures
            outcome == self@.outcome,
    {
        self.outcome
    }
}

/// The state of `query` after one silent wait for each clock reading in
/// `nows`: every event is `Elapsed`.
pub open spec fn after_silence(query: QueryView, nows: Seq<u64>) -> QueryView
    decreases nows.len(),
{
    if nows.len() == 0 {
        query
    } else {
        after_silence(query, nows.drop_last()).step(nows.last(), EventView::Elapsed).0
    }
}

/// No datagram answers to two identifiers: what one query accepts, or finds
/// inconsistent, a query that waits for another identifier discards.
pub proof fn lemma_answers_do_not_cross(first: u64, second: u64, bytes: Seq<u8>)
    requires
        first != second,
    ensures
        judge_spec(first, bytes) is Discard || judge_spec(second, bytes) is Discard,
{
}

/// A pong that echoes another identifier never ends a query: the query goes
/// on waiting, begins its next attempt or times out, and its state shows no
/// trace of the pong.
pub proof fn lemma_foreign_pong_is_not_accepted(
    query: QueryView,
    now: u64,
    bytes: Seq<u8>,
    pong: Pong,
)
    requires
        !query.finished(),
        decode_pong_spec(bytes) == Ok::<Pong, crate::codec::MalformedError>(pong),
        pong.identifier != query.identifier,
    ensures
        query.step(now, EventView::Datagram(bytes)) == if query.remaining(now) > 0 {
            (query, ActionView::Wait { wait: query.remaining(now) })
        } else {
            query.next_attempt(now)
        },
        !(query.step(now, EventView::Datagram(bytes)).1 matches ActionView::Finish(Ok(_))),
{
}

/// A datagram of the wrong length never ends a query either.
pub proof fn lemma_malformed_datagram_is_not_accepted(query: QueryView, now: u64, bytes: Seq<u8>)
    requires
        !query.finished(),
        bytes.len() != crate::codec::PONG_LEN,
    ensures
        query.step(now, EventView::Datagram(bytes)) == if query.remaining(now) > 0 {
            (query, ActionView::Wait { wait: query.remaining(now) })
        } else {
            query.next_attempt(now)
        },
{
}

/// A pong that echoes the query's identifier but reports more users connected
/// than there are slots ends the query with `Inconsistent`.
pub proof fn lemma_inconsistent_answer_is_an_error(
    query: QueryView,
    now: u64,
    bytes: Seq<u8>,
    pong: Pong,
)
    requires
        !query.finished(),
        decode_pong_spec(bytes) == Ok::<Pong, crate::codec::MalformedError>(pong),
        pong.identifier == query.identifier,
        pong.connected_users > pong.max_users,
    ensures
        query.step(now, EventView::Datagram(bytes)) == query.finish(
            Err(QueryError::Inconsistent),
        ),
{
}

/// Every step keeps a query well formed, and a pong that it hands out as the
/// result echoes the query's identifier, has counts that agree, and is either
/// the result that the query already had or what this event's datagram
/// decodes to.
pub proof fn lemma_result_is_correlated(query: QueryView, now: u64, event: EventView)
    requires
        query.wf(),
    ensures
        query.step(now, event).0.wf(),
        query.step(now, event).0.identifier == query.identifier,
        query.step(now, event).1 matches ActionView::Finish(Ok(pong)) ==> {
            &&& pong.identifier == query.identifier
            &&& pong.consistent()
            &&& query.outcome == Some(Ok::<Pong, QueryError>(pong)) || (event matches EventView::Datagram(
                bytes,
            ) && decode_pong_spec(bytes) == Ok::<Pong, crate::codec::MalformedError>(pong))
        },
{
}

/// Waiting stays within the attempt: an attempt begins with one whole timeout,
/// and a wait that goes on after a discarded datagram is not empty, ends no
/// later than the attempt's deadline and leaves that deadline where it was.
pub proof fn lemma_waits_stay_within_the_attempt(query: QueryView, now: u64, event: EventView)
    ensures
        match query.step(now, event).1 {
            ActionView::Send { datagram, wait } => {
                &&& datagram == query.ping()
                &&& wait == query.timeout
                &&& query.step(now, event).0.attempts == query.attempts + 1
            },
            ActionView::Wait { wait } => {
                &&& 0 < wait <= query.timeout
                &&& now + wait <= query.deadline
                &&& query.step(now, event).0 == query
            },
            ActionView::Finish(result) => query.step(now, event).0.outcome == Some(result),
        },
{
}

/// A server that never answers: after fewer silent waits than there are
/// attempts the query is still going and has begun one attempt more than it
/// has waited; after as many, or more, it has ended with `Timeout`, having
/// begun exactly `max_attempts` attempts.
pub proof fn lemma_silence_times_out(
    identifier: u64,
    timeout: u64,
    max_attempts: u32,
    begin: u64,
    nows: Seq<u64>,
)
    ensures
        ({
            let end = after_silence(start_spec(identifier, timeout, max_attempts, begin).0, nows);
            if nows.len() < max_attempts {
                !end.finished() && end.attempts == nows.len() + 1
            } else {
                end.outcome == Some(Err::<Pong, QueryError>(QueryError::Timeout)) && end.attempts
                    == max_attempts
            }
        }),
    decreases nows.len(),
{
    let begun = start_spec(identifier, timeout, max_attempts, begin).0;
    if nows.len() == 0 {
        assert(after_silence(begun, nows) == begun);
    } else {
        let before = after_silence(begun, nows.drop_last());
        lemma_silence_times_out(identifier, timeout, max_attempts, begin, nows.drop_last());
        lemma_silence_keeps_the_limit(begun, nows.drop_last());
        assert(after_silence(begun, nows) == before.step(nows.last(), EventView::Elapsed).0);
    }
}

/// Silent waits change neither the number of attempts allowed nor the
/// identifier.
proof fn lemma_silence_keeps_the_limit(query: QueryView, nows: Seq<u64>)
    ensures
        after_silence(query, nows).max_attempts == query.max_attempts,
        after_silence(query, nows).identifier == query.identifier,
        after_silence(query, nows).timeout == query.timeout,
    decreases nows.len(),
{
    if nows.len() > 0 {
        lemma_silence_keeps_the_limit(query, nows.drop_last());
    }
}

} // verus!
