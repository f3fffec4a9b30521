//! What one connection sends for the requests of its caller.
//!
//! A session takes queries that carry the mark of a safe string, looks each
//! up among the statements that the connection has prepared, and writes the
//! messages that the backend needs: a parse only for a statement that it
//! does not know yet. It writes into a buffer; the caller sends the buffer.

use crate::cache::{Cache, Prepared, StatementCache, Step};
use crate::connection::ConnectionState;
use crate::error::Error;
use crate::frame::frame_bytes;
use crate::frontend::{
    bind, bind_fits, bind_payload, close, describe, execute, execute_payload, params_view, parse,
    parse_fits, parse_payload, statement_payload, sync, Param, Parameter, TAG_BIND, TAG_CLOSE,
    TAG_DESCRIBE, TAG_EXECUTE, TAG_PARSE, TAG_SYNC,
};
use crate::pipeline::{outcomes_view, Answer, Outcome, Pipeline, State};
use crate::query_string::QueryString;
use crate::statement::StatementRef;
use vstd::prelude::*;
use vstd::string::StringSliceAdditionalSpecFns;
use vstd::utf8::encode_utf8;

verus! {

/// One request as a mathematical value.
pub struct Request {
    /// The SQL text.
    pub sql: Seq<char>,
    /// The types that the client declares for the first parameters.
    pub types: Seq<u32>,
    pub params: Seq<Param>,
    /// The most rows to return; zero is no limit.
    pub limit: u32,
    /// Whether the result is to come in binary format.
    pub binary_result: bool,
}

/// A session as a mathematical value.
pub struct SessionState {
    pub state: ConnectionState,
    pub cache: Cache,
    /// One entry for each request that was written since the last sync: the
    /// text of the request if it had its statement parsed and kept, and
    /// nothing if it ran a statement that the connection knew or could not
    /// keep.
    pub fresh: Seq<Option<Seq<char>>>,
}

/// The cache without the statements that were parsed for requests that did
/// not run: the backend may not know them. `fresh` holds the texts of the
/// parsed statements at the places of their requests, and `answers` how the
/// requests ended.
pub open spec fn without_failed(
    cache: Cache,
    fresh: Seq<Option<Seq<char>>>,
    answers: Seq<Answer>,
) -> Cache
    decreases fresh.len(),
{
    if fresh.len() == 0 {
        cache
    } else {
        let earlier = without_failed(cache, fresh.drop_last(), answers);
        let place = fresh.len() - 1;
        match fresh.last() {
            Some(sql) => if place < answers.len() && answers[place] is Completed {
                earlier
            } else {
                earlier.after_forget(sql)
            },
            None => earlier,
        }
    }
}

/// Forgetting statements keeps the cache well-formed.
pub proof fn lemma_without_failed_wf(
    cache: Cache,
    fresh: Seq<Option<Seq<char>>>,
    answers: Seq<Answer>,
)
    requires
        cache.wf(),
    ensures
        without_failed(cache, fresh, answers).wf(),
    decreases fresh.len(),
{
    if fresh.len() > 0 {
        lemma_without_failed_wf(cache, fresh.drop_last(), answers);
        if let Some(sql) = fresh.last() {
            without_failed(cache, fresh.drop_last(), answers).lemma_after_forget_wf(sql);
        }
    }
}

impl SessionState {
    /// Whether the connection can take a request: it is ready, or has been
    /// given a request already and waits for the sync.
    pub open spec fn takes_requests(self) -> bool {
        self.state == ConnectionState::Ready || self.state == ConnectionState::Executing
    }

    /// Why a connection that cannot take a request refuses it.
    pub open spec fn refusal(self) -> Error {
        if self.state == ConnectionState::Failed {
            Error::ConnectionFailed
        } else {
            Error::Protocol
        }
    }

    /// How many requests were written since the last sync.
    pub open spec fn queued(self) -> nat {
        self.fresh.len()
    }

    /// Whether the messages of the request can be written.
    pub open spec fn fits(self, request: Request) -> bool {
        let statement = self.cache.statement_for(request.sql);
        &&& self.cache.prepare_step(request.sql) is Parse ==> parse_fits(
            statement,
            encode_utf8(request.sql),
            request.types,
        )
        &&& bind_fits(statement, request.params, request.binary_result)
    }

    /// The messages of the request: for a statement that the connection has
    /// prepared, a bind and an execute; for a new one, before these, the
    /// close of the statement that gives up its place, if any, then a parse
    /// and a describe.
    pub open spec fn request_bytes(self, request: Request) -> Seq<u8> {
        let statement = self.cache.statement_for(request.sql);
        let run = frame_bytes(
            TAG_BIND,
            bind_payload(statement, request.params, request.binary_result),
        ) + frame_bytes(TAG_EXECUTE, execute_payload(request.limit));
        match self.cache.prepare_step(request.sql) {
            Step::Reuse(_) => run,
            Step::Parse { close, .. } => (match close {
                Some(closed) => frame_bytes(TAG_CLOSE, statement_payload(closed)),
                None => Seq::empty(),
            }) + frame_bytes(
                TAG_PARSE,
                parse_payload(statement, encode_utf8(request.sql), request.types),
            ) + frame_bytes(TAG_DESCRIBE, statement_payload(statement)) + run,
        }
    }

    /// The session after the request was written.
    pub open spec fn after_submit(self, request: Request) -> SessionState {
        SessionState {
            state: ConnectionState::Executing,
            cache: self.cache.after_prepare(request.sql),
            fresh: self.fresh.push(
                if self.cache.prepare_step(request.sql) matches Step::Parse {
                    statement: StatementRef::Named(_),
                    ..
                } {
                    Some(request.sql)
                } else {
                    None
                },
            ),
        }
    }

    /// The session after the backend has answered the requests and said
    /// that it is ready: the statements that were parsed for requests that
    /// did not run are forgotten, no request is waiting, and the connection
    /// is ready. A connection that was not taking requests stays as it is.
    pub open spec fn after_settle(self, answers: Seq<Answer>) -> SessionState {
        if self.takes_requests() {
            SessionState {
                state: ConnectionState::Ready,
                cache: without_failed(self.cache, self.fresh, answers),
                fresh: Seq::empty(),
            }
        } else {
            self
        }
    }

    /// A request that is written twice in a row is parsed at most once: the
    /// second time only a bind and an execute are written, under the name
    /// that the first time used. (A cache that keeps nothing has no name to
    /// reuse.)
    pub proof fn lemma_second_submission_writes_no_parse(self, first: Request, second: Request)
        requires
            self.cache.wf(),
            self.cache.contains(first.sql) || self.cache.can_keep(),
            second.sql == first.sql,
        ensures
            self.after_submit(first).cache.statement_for(second.sql) == self.cache.statement_for(
                first.sql,
            ),
            self.after_submit(first).request_bytes(second) == frame_bytes(
                TAG_BIND,
                bind_payload(
                    self.cache.statement_for(first.sql),
                    second.params,
                    second.binary_result,
                ),
            ) + frame_bytes(TAG_EXECUTE, execute_payload(second.limit)),
    {
        self.cache.lemma_second_submission_reuses(first.sql);
    }
}

/// What one connection sends for the requests of its caller.
pub struct Session {
    state: ConnectionState,
    statements: StatementCache,
    fresh: Vec<Option<String>>,
}

/// The texts of the parsed statements as mathematical values.
pub open spec fn fresh_view(fresh: Seq<Option<String>>) -> Seq<Option<Seq<char>>> {
    fresh.map_values(
        |entry: Option<String>|
            match entry {
                Some(sql) => Some(sql@),
                None => None,
            },
    )
}

impl View for Session {
    type V = SessionState;

    closed spec fn view(&self) -> SessionState {
        SessionState {
            state: self.state,
            cache: self.statements@,
            fresh: fresh_view(self.fresh@),
        }
    }
}

impl Session {
    /// The statements of the session are in order.
    pub open spec fn wf(&self) -> bool {
        self@.cache.wf()
    }

    /// The session of a connection that is ready, with room for `capacity`
    /// prepared statements.
    pub fn new(capacity: usize) -> (session: Session)
        ensures
            session.wf(),
            session@ == (SessionState {
                state: ConnectionState::Ready,
                cache: Cache::empty(capacity as nat),
                fresh: Seq::empty(),
            }),
    {
        let session = Session {
            state: ConnectionState::Ready,
            statements: StatementCache::new(capacity),
            fresh: Vec::new(),
        };
        assert(session@.fresh =~= Seq::empty());
        session
    }

    /// The state of the connection.
    pub fn state(&self) -> (state: ConnectionState)
        ensures
            state == self@.state,
    {
        self.state
    }

    /// How many requests were written since the last sync.
    pub fn queued(&self) -> (n: usize)
        ensures
            n == self@.queued(),
    {
        self.fresh.len()
    }

    /// Writes the messages of one request to `buf` and gives the name under
    /// which the statement runs. Only a query string can be submitted: text
    /// that is a literal of the program or that the caller has asserted to
    /// be safe.
    ///
    /// A connection that cannot take a request refuses it, a failed one with
    /// an error of its own. A request whose messages cannot be written is a
    /// protocol error. In both cases nothing is written and nothing changes.
    pub fn submit(
        &mut self,
        query: &QueryString<'_>,
        types: &[u32],
        params: &[Parameter],
        limit: u32,
        binary_result: bool,
        buf: &mut Vec<u8>,
    ) -> (r: Result<StatementRef, Error>)
        requires
            old(self).wf(),
        ensures
            final(self).wf(),
            ({
                let before = old(self)@;
                let request = Request {
                    sql: query@,
                    types: types@,
                    params: params_view(params@),
                    limit,
                    binary_result,
                };
                if !before.takes_requests() {
                    &&& r == Err::<StatementRef, _>(before.refusal())
                    &&& final(self)@ == before
                    &&& final(buf)@ == old(buf)@
                } else if !before.fits(request) {
                    &&& r == Err::<StatementRef, _>(Error::Protocol)
                    &&& final(self)@ == before
                    &&& final(buf)@ == old(buf)@
                } else {
                    &&& r == Ok::<_, Error>(before.cache.statement_for(request.sql))
                    &&& final(self)@ == before.after_submit(request)
                    &&& final(buf)@ == old(buf)@ + before.request_bytes(request)
                }
            }),
    {
        match self.state {
            ConnectionState::Ready | ConnectionState::Executing => {},
            ConnectionState::Failed => {
                return Err(Error::ConnectionFailed);
            },
            _ => {
                return Err(Error::Protocol);
            },
        }
        let sql = query.as_str();
        let statement = self.statements.peek(sql);
        let known = self.statements.contains(sql);
        let mut messages: Vec<u8> = Vec::new();
        if !known {
            if parse(statement, sql, types, &mut messages).is_err() {
                return Err(Error::Protocol);
            }
            describe(statement, &mut messages);
        }
        if bind(statement, params, binary_result, &mut messages).is_err() {
            return Err(Error::Protocol);
        }
        execute(limit, &mut messages);
        match self.statements.prepare_or_reuse(sql) {
            Prepared::Parse { statement: _, close: Some(closed) } => {
                close(closed, buf);
            },
            _ => {},
        }
        buf.extend_from_slice(messages.as_slice());
        self.state = ConnectionState::Executing;
        let kept = !known && matches!(statement, StatementRef::Named(_));
        self.fresh.push(
            if kept {
                Some(sql.to_owned())
            } else {
                None
            },
        );
        proof {
            let before = old(self)@;
            let request = Request {
                sql: query@,
                types: types@,
                params: params_view(params@),
                limit,
                binary_result,
            };
            assert(buf@ =~= old(buf)@ + before.request_bytes(request));
            assert(self@.fresh =~= before.after_submit(request).fresh);
        }
        Ok(statement)
    }

    /// Writes the sync that ends the requests written so far, and gives the
    /// pipeline that takes their answers. A connection that has failed, or
    /// that is not in a state to take requests, refuses.
    pub fn sync(&mut self, buf: &mut Vec<u8>) -> (r: Result<Pipeline, Error>)
        requires
            old(self).wf(),
        ensures
            final(self).wf(),
            final(self)@ == old(self)@,
            final(buf)@ == old(buf)@ + (if old(self)@.takes_requests() {
                frame_bytes(TAG_SYNC, Seq::empty())
            } else {
                Seq::empty()
            }),
            match r {
                Ok(pipeline) => old(self)@.takes_requests() && pipeline.wf() && pipeline@
                    == State::start(old(self)@.queued()),
                Err(e) => !old(self)@.takes_requests() && e == old(self)@.refusal(),
            },
    {
        match self.state {
            ConnectionState::Ready | ConnectionState::Executing => {
                sync(buf);
                Ok(Pipeline::new(self.fresh.len()))
            },
            ConnectionState::Failed => Err(Error::ConnectionFailed),
            _ => Err(Error::Protocol),
        }
    }

    /// Records that the backend has answered the requests with `outcomes`
    /// and said that it is ready. The connection can take new requests. A
    /// statement that was parsed for a request that did not run is forgotten:
    /// the backend may not have it, and the next request with that text has
    /// it parsed again, under a new name.
    pub fn settle(&mut self, outcomes: &[Outcome])
        requires
            old(self).wf(),
        ensures
            final(self).wf(),
            final(self)@ == old(self)@.after_settle(outcomes_view(outcomes@)),
    {
        match self.state {
            ConnectionState::Ready | ConnectionState::Executing => {},
            _ => {
                return ;
            },
        }
        let ghost answers = outcomes_view(outcomes@);
        let ghost fresh = self@.fresh;
        let mut i: usize = 0;
        assert(fresh.subrange(0, 0) =~= Seq::empty());
        while i < self.fresh.len()
            invariant
                i <= self.fresh.len(),
                self.state == old(self).state,
                fresh == fresh_view(self.fresh@),
                answers == outcomes_view(outcomes@),
                old(self)@.cache.wf(),
                self.statements.wf(),
                self.statements@ == without_failed(
                    old(self)@.cache,
                    fresh.subrange(0, i as int),
                    answers,
                ),
            decreases self.fresh.len() - i,
        {
            let ran = i < outcomes.len() && matches!(outcomes[i], Outcome::Completed { .. });
            proof {
                let done = fresh.subrange(0, i + 1);
                assert(done.drop_last() =~= fresh.subrange(0, i as int));
                assert(done.last() == fresh[i as int]);
                assert(ran == (i < answers.len() && answers[i as int] is Completed));
            }
            match &self.fresh[i] {
                Some(sql) => {
                    if !ran {
                        self.statements.forget(sql.as_str());
                    }
                },
                None => {},
            }
            i += 1;
        }
        assert(fresh.subrange(0, self.fresh.len() as int) =~= fresh);
        self.fresh = Vec::new();
        self.state = ConnectionState::Ready;
        assert(self@.fresh =~= Seq::empty());
    }

    /// Records that the connection met `error`. A fatal error makes the
    /// connection fail for good; an error of the database changes nothing.
    pub fn fail(&mut self, error: Error)
        requires
            old(self).wf(),
        ensures
            final(self).wf(),
            final(self)@ == (SessionState {
                state: old(self)@.state.after_error(error),
                ..old(self)@
            }),
    {
        self.state = self.state.after_error(error);
    }

    /// Records the types that the backend gave for the statement `sql`.
    /// Says whether the statement is among the prepared ones.
    pub fn describe(&mut self, sql: &str, params: Vec<u32>, columns: Vec<u32>) -> (known: bool)
        requires
            old(self).wf(),
        ensures
            final(self).wf(),
            known == old(self)@.cache.contains(sql@),
            final(self)@ == (SessionState {
                cache: old(self)@.cache.after_describe(sql@, params@, columns@),
                ..old(self)@
            }),
    {
        self.statements.describe(sql, params, columns)
    }

    /// Forgets the statement `sql`, which the backend has closed or lost,
    /// and gives its name.
    pub fn forget(&mut self, sql: &str) -> (removed: Option<StatementRef>)
        requires
            old(self).wf(),
        ensures
            final(self).wf(),
            removed == old(self)@.cache.forgotten(sql@),
            final(self)@ == (SessionState {
                cache: old(self)@.cache.after_forget(sql@),
                ..old(self)@
            }),
    {
        self.statements.forget(sql)
    }
}

} // verus!
