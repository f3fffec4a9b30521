//! The answers to a pipeline of requests.
//!
//! Several requests may be sent before one sync. The backend answers them in
//! the order in which they were sent, so an answer belongs to a request by
//! its place in the stream and by nothing else. After an error the backend
//! skips what remains up to the sync. This module decides; the connection
//! reads the messages and hands them over one by one.

use crate::error::Error;
use crate::message::{BackendMessage, Message};
use vstd::prelude::*;

verus! {

/// How one request of a pipeline ended, as a mathematical value.
pub enum Answer {
    /// The request ran: its rows, in order, and its completion tag.
    Completed { rows: Seq<Seq<u8>>, tag: Seq<u8> },
    /// The backend answered the request with this error response.
    Failed(Seq<u8>),
    /// The backend skipped the request because an earlier one failed.
    Skipped,
}

/// What is known of a pipeline while its answers arrive.
pub struct State {
    /// How many requests were sent before the sync.
    pub requests: nat,
    /// The answers so far, one for each request from the first on.
    pub answers: Seq<Answer>,
    /// The rows that arrived for the request that is being answered.
    pub rows: Seq<Seq<u8>>,
    /// Whether a request failed, so that the rest is skipped.
    pub failed: bool,
}

impl State {
    /// A pipeline of `requests` requests, of which none is answered yet.
    pub open spec fn start(requests: nat) -> State {
        State { requests, answers: Seq::empty(), rows: Seq::empty(), failed: false }
    }

    /// Whether the backend is still answering a request.
    pub open spec fn answering(self) -> bool {
        !self.failed && self.answers.len() < self.requests
    }

    /// There is no answer without a request, and rows only for a request
    /// that is being answered.
    pub open spec fn wf(self) -> bool {
        &&& self.answers.len() <= self.requests
        &&& self.rows.len() > 0 ==> self.answering()
        &&& self.failed ==> self.answers.len() > 0
    }

    /// The pipeline after a message other than the one that ends it. A
    /// message that cannot stand where it arrives is a protocol error.
    pub open spec fn receive(self, message: Message) -> Result<State, Error> {
        match message {
            Message::DataRow(row) => if self.answering() {
                Ok(State { rows: self.rows.push(row), ..self })
            } else {
                Err(Error::Protocol)
            },
            Message::CommandComplete(tag) => if self.answering() {
                Ok(
                    State {
                        answers: self.answers.push(Answer::Completed { rows: self.rows, tag }),
                        rows: Seq::empty(),
                        ..self
                    },
                )
            } else {
                Err(Error::Protocol)
            },
            Message::ErrorResponse(error) => if self.answering() {
                Ok(
                    State {
                        answers: self.answers.push(Answer::Failed(error)),
                        rows: Seq::empty(),
                        failed: true,
                        ..self
                    },
                )
            } else {
                Err(Error::Protocol)
            },
            Message::ParseComplete
            | Message::BindComplete
            | Message::CloseComplete
            | Message::NoData
            | Message::ParameterDescription(_)
            | Message::RowDescription(_) => if self.answering() {
                Ok(self)
            } else {
                Err(Error::Protocol)
            },
            Message::ParameterStatus(_) => Ok(self),
            Message::Authentication { .. }
            | Message::BackendKeyData(_)
            | Message::ReadyForQuery(_) => Err(Error::Protocol),
        }
    }

    /// The answers of the pipeline when the backend says that it is ready
    /// again: one for each request. After a failure the requests that have
    /// no answer were skipped. Without a failure every request must have
    /// its answer.
    pub open spec fn finish(self) -> Result<Seq<Answer>, Error> {
        if self.failed {
            Ok(self.answers + Seq::new((self.requests - self.answers.len()) as nat, |i: int| Answer::Skipped))
        } else if self.answers.len() == self.requests && self.rows.len() == 0 {
            Ok(self.answers)
        } else {
            Err(Error::Protocol)
        }
    }

    /// The pipeline after the messages `messages`, in order.
    pub open spec fn receive_all(self, messages: Seq<Message>) -> Result<State, Error>
        decreases messages.len(),
    {
        if messages.len() == 0 {
            Ok(self)
        } else {
            match self.receive_all(messages.drop_last()) {
                Ok(state) => state.receive(messages.last()),
                Err(e) => Err(e),
            }
        }
    }
}

/// What the backend sends for one request that runs.
pub struct Group {
    /// Whether the request had its statement parsed first.
    pub parsed: bool,
    /// The rows of the result.
    pub rows: Seq<Seq<u8>>,
    /// The completion tag.
    pub tag: Seq<u8>,
}

impl Group {
    /// The messages of the group, in order.
    pub open spec fn messages(self) -> Seq<Message> {
        (if self.parsed {
            seq![Message::ParseComplete, Message::BindComplete]
        } else {
            seq![Message::BindComplete]
        }) + data_rows(self.rows) + seq![Message::CommandComplete(self.tag)]
    }

    /// The answer that the request of the group gets.
    pub open spec fn answer(self) -> Answer {
        Answer::Completed { rows: self.rows, tag: self.tag }
    }
}

/// One data row message for each row.
pub open spec fn data_rows(rows: Seq<Seq<u8>>) -> Seq<Message> {
    rows.map_values(|row: Seq<u8>| Message::DataRow(row))
}

/// The messages of the groups, one group after the other.
pub open spec fn stream(groups: Seq<Group>) -> Seq<Message>
    decreases groups.len(),
{
    if groups.len() == 0 {
        Seq::empty()
    } else {
        stream(groups.drop_last()) + groups.last().messages()
    }
}

/// The answer of each group, in order.
pub open spec fn answers_of(groups: Seq<Group>) -> Seq<Answer> {
    groups.map_values(|group: Group| group.answer())
}

/// `count` requests that were skipped.
pub open spec fn skipped(count: nat) -> Seq<Answer> {
    Seq::new(count, |i: int| Answer::Skipped)
}

/// Messages that arrive one after the other have the effect of the first
/// part followed by the effect of the second.
pub proof fn lemma_receive_all_concat(state: State, first: Seq<Message>, second: Seq<Message>)
    ensures
        state.receive_all(first + second) == match state.receive_all(first) {
            Ok(middle) => middle.receive_all(second),
            Err(e) => Err(e),
        },
    decreases second.len(),
{
    if second.len() == 0 {
        assert(first + second =~= first);
    } else {
        assert((first + second).drop_last() =~= first + second.drop_last());
        lemma_receive_all_concat(state, first, second.drop_last());
    }
}

/// A single message has the effect of receiving it.
pub proof fn lemma_receive_one(state: State, message: Message)
    ensures
        state.receive_all(seq![message]) == state.receive(message),
{
    assert(seq![message].drop_last() =~= Seq::<Message>::empty());
    assert(state.receive_all(Seq::<Message>::empty()) == Ok::<_, Error>(state));
}

/// Rows that arrive for a request are kept for it, in order.
pub proof fn lemma_receive_rows(state: State, rows: Seq<Seq<u8>>)
    requires
        state.answering(),
    ensures
        state.receive_all(data_rows(rows)) == Ok::<_, Error>(
            State { rows: state.rows + rows, ..state },
        ),
    decreases rows.len(),
{
    if rows.len() == 0 {
        assert(state.rows + rows =~= state.rows);
    } else {
        lemma_receive_rows(state, rows.drop_last());
        assert(data_rows(rows).drop_last() =~= data_rows(rows.drop_last()));
        assert((state.rows + rows.drop_last()).push(rows.last()) =~= state.rows + rows);
    }
}

/// The messages of one group answer the request that is next in line, with
/// the rows and the tag of that group.
pub proof fn lemma_receive_group(state: State, group: Group)
    requires
        state.answering(),
        state.rows.len() == 0,
    ensures
        state.receive_all(group.messages()) == Ok::<_, Error>(
            State { answers: state.answers.push(group.answer()), ..state },
        ),
{
    let head = if group.parsed {
        seq![Message::ParseComplete, Message::BindComplete]
    } else {
        seq![Message::BindComplete]
    };
    let tail = seq![Message::CommandComplete(group.tag)];
    assert(state.receive_all(head) == Ok::<_, Error>(state)) by {
        lemma_receive_one(state, Message::BindComplete);
        if group.parsed {
            lemma_receive_one(state, Message::ParseComplete);
            assert(head =~= seq![Message::ParseComplete] + seq![Message::BindComplete]);
            lemma_receive_all_concat(
                state,
                seq![Message::ParseComplete],
                seq![Message::BindComplete],
            );
        }
    }
    lemma_receive_all_concat(state, head, data_rows(group.rows));
    lemma_receive_rows(state, group.rows);
    let with_rows = State { rows: state.rows + group.rows, ..state };
    assert(state.rows =~= Seq::empty());
    assert(state.rows + group.rows =~= group.rows);
    assert(state.receive_all(head + data_rows(group.rows)) == Ok::<_, Error>(with_rows));
    lemma_receive_all_concat(state, head + data_rows(group.rows), tail);
    lemma_receive_one(with_rows, Message::CommandComplete(group.tag));
    assert(group.messages() == head + data_rows(group.rows) + tail);
    assert(with_rows.receive(Message::CommandComplete(group.tag)) == Ok::<_, Error>(
        State { answers: state.answers.push(group.answer()), ..state },
    ));
}

/// However the answers look, the answer to the request at each place is
/// made of the group that stands at that place in the stream: the first
/// `groups.len()` requests of the pipeline are answered by the groups, in
/// order.
pub proof fn lemma_answers_go_by_position(requests: nat, groups: Seq<Group>)
    requires
        groups.len() <= requests,
    ensures
        State::start(requests).receive_all(stream(groups)) == Ok::<_, Error>(
            State { answers: answers_of(groups), ..State::start(requests) },
        ),
        answers_of(groups).len() == groups.len(),
        forall|i: int| 0 <= i < groups.len() ==> #[trigger] answers_of(groups)[i] == groups[i].answer(),
    decreases groups.len(),
{
    let start = State::start(requests);
    if groups.len() == 0 {
        assert(answers_of(groups) =~= start.answers);
    } else {
        let earlier = groups.drop_last();
        lemma_answers_go_by_position(requests, earlier);
        let before = State { answers: answers_of(earlier), ..start };
        lemma_receive_all_concat(start, stream(earlier), groups.last().messages());
        lemma_receive_group(before, groups.last());
        assert(answers_of(earlier).push(groups.last().answer()) =~= answers_of(groups));
    }
}

/// When every request ran, the pipeline ends with the answer of each group
/// at the place of its request.
pub proof fn lemma_pipeline_of_groups(groups: Seq<Group>)
    ensures
        match State::start(groups.len()).receive_all(stream(groups)) {
            Ok(state) => state.finish() == Ok::<_, Error>(answers_of(groups)),
            Err(_) => false,
        },
{
    lemma_answers_go_by_position(groups.len(), groups);
}

/// When a request fails, the requests before it keep their answers, the
/// failed one gets the error of the backend, and each request after it is
/// reported as skipped: every request has its outcome, and none is lost.
pub proof fn lemma_error_skips_the_rest(
    requests: nat,
    groups: Seq<Group>,
    rows: Seq<Seq<u8>>,
    error: Seq<u8>,
)
    requires
        groups.len() < requests,
    ensures
        match State::start(requests).receive_all(
            stream(groups) + data_rows(rows) + seq![Message::ErrorResponse(error)],
        ) {
            Ok(state) => {
                &&& state.finish() == Ok::<_, Error>(
                    answers_of(groups).push(Answer::Failed(error)) + skipped(
                        (requests - groups.len() - 1) as nat,
                    ),
                )
                &&& state.finish()->Ok_0.len() == requests
                &&& forall|m: Message| !(m is ParameterStatus) ==> state.receive(m) is Err
            },
            Err(_) => false,
        },
{
    let start = State::start(requests);
    lemma_answers_go_by_position(requests, groups);
    let before = State { answers: answers_of(groups), ..start };
    lemma_receive_all_concat(start, stream(groups), data_rows(rows));
    lemma_receive_rows(before, rows);
    let with_rows = State { rows: before.rows + rows, ..before };
    lemma_receive_all_concat(
        start,
        stream(groups) + data_rows(rows),
        seq![Message::ErrorResponse(error)],
    );
    lemma_receive_one(with_rows, Message::ErrorResponse(error));
}

/// How one request of a pipeline ended.
#[derive(Clone, Debug, PartialEq, Eq)]
pub enum Outcome {
    /// The request ran: its rows, in order, and its completion tag.
    Completed { rows: Vec<Vec<u8>>, tag: Vec<u8> },
    /// The backend answered the request with this error response.
    Failed(Vec<u8>),
    /// The backend skipped the request because an earlier one failed.
    Skipped,
}

/// The rows of a vector as mathematical values.
pub open spec fn rows_view(rows: Seq<Vec<u8>>) -> Seq<Seq<u8>> {
    rows.map_values(|row: Vec<u8>| row@)
}

/// The outcomes of a vector as mathematical values.
pub open spec fn outcomes_view(outcomes: Seq<Outcome>) -> Seq<Answer> {
    outcomes.map_values(|outcome: Outcome| outcome@)
}

impl View for Outcome {
    type V = Answer;

    open spec fn view(&self) -> Answer {
        match self {
            Outcome::Completed { rows, tag } => Answer::Completed {
                rows: rows_view(rows@),
                tag: tag@,
            },
            Outcome::Failed(error) => Answer::Failed(error@),
            Outcome::Skipped => Answer::Skipped,
        }
    }
}

impl Outcome {
    /// The error that the caller of the request gets: none if the request
    /// ran, and a database error, which leaves the connection usable, if it
    /// failed or was skipped.
    pub fn error(&self) -> (e: Option<Error>)
        ensures
            e == (if self@ is Completed {
                None
            } else {
                Some(Error::Database)
            }),
    {
        match self {
            Outcome::Completed { .. } => None,
            _ => Some(Error::Database),
        }
    }
}

/// A pipeline whose answers are arriving.
#[derive(Debug)]
pub struct Pipeline {
    requests: usize,
    outcomes: Vec<Outcome>,
    rows: Vec<Vec<u8>>,
    failed: bool,
}

/// What a message did to a pipeline.
#[derive(Debug)]
pub enum Progress {
    /// More messages are to come.
    More(Pipeline),
    /// The backend is ready again: here is how each request ended, in the
    /// order in which the requests were sent.
    Done(Vec<Outcome>),
}

impl View for Pipeline {
    type V = State;

    closed spec fn view(&self) -> State {
        State {
            requests: self.requests as nat,
            answers: outcomes_view(self.outcomes@),
            rows: rows_view(self.rows@),
            failed: self.failed,
        }
    }
}

impl Pipeline {
    /// See [`State::wf`].
    pub open spec fn wf(&self) -> bool {
        self@.wf()
    }

    /// A pipeline of `requests` requests that were sent before one sync.
    pub fn new(requests: usize) -> (pipeline: Pipeline)
        ensures
            pipeline.wf(),
            pipeline@ == State::start(requests as nat),
    {
        let pipeline = Pipeline { requests, outcomes: Vec::new(), rows: Vec::new(), failed: false };
        assert(pipeline@.answers =~= Seq::empty());
        assert(pipeline@.rows =~= Seq::empty());
        pipeline
    }

    fn answering(&self) -> (b: bool)
        ensures
            b == self@.answering(),
    {
        !self.failed && self.outcomes.len() < self.requests
    }

    /// Takes the next message of the backend. The message that says that
    /// the backend is ready ends the pipeline and gives one outcome for each
    /// request. A message that cannot stand where it arrives is a protocol
    /// error, after which the connection cannot be used.
    pub fn on_message(self, message: BackendMessage) -> (r: Result<Progress, Error>)
        requires
            self.wf(),
        ensures
            message@ is ReadyForQuery ==> match self@.finish() {
                Ok(answers) => r matches Ok(Progress::Done(outcomes)) && outcomes_view(outcomes@)
                    == answers,
                Err(e) => r matches Err(x) && x == e,
            },
            !(message@ is ReadyForQuery) ==> match self@.receive(message@) {
                Ok(state) => r matches Ok(Progress::More(next)) && next@ == state && next.wf(),
                Err(e) => r matches Err(x) && x == e,
            },
    {
        let mut next = self;
        match message {
            BackendMessage::ReadyForQuery(_) => next.finish(),
            BackendMessage::DataRow(row) => {
                if !next.answering() {
                    return Err(Error::Protocol);
                }
                next.rows.push(row);
                assert(next@.rows =~= self@.rows.push(row@));
                Ok(Progress::More(next))
            },
            BackendMessage::CommandComplete(tag) => {
                if !next.answering() {
                    return Err(Error::Protocol);
                }
                let Pipeline { requests, mut outcomes, rows, failed } = next;
                outcomes.push(Outcome::Completed { rows, tag });
                let next = Pipeline { requests, outcomes, rows: Vec::new(), failed };
                assert(next@.answers =~= self@.answers.push(
                    Answer::Completed { rows: self@.rows, tag: tag@ },
                ));
                assert(next@.rows =~= Seq::empty());
                Ok(Progress::More(next))
            },
            BackendMessage::ErrorResponse(error) => {
                if !next.answering() {
                    return Err(Error::Protocol);
                }
                let Pipeline { requests, mut outcomes, rows: _, failed: _ } = next;
                outcomes.push(Outcome::Failed(error));
                let next = Pipeline { requests, outcomes, rows: Vec::new(), failed: true };
                assert(next@.answers =~= self@.answers.push(Answer::Failed(error@)));
                assert(next@.rows =~= Seq::empty());
                Ok(Progress::More(next))
            },
            BackendMessage::ParseComplete
            | BackendMessage::BindComplete
            | BackendMessage::CloseComplete
            | BackendMessage::NoData
            | BackendMessage::ParameterDescription(_)
            | BackendMessage::RowDescription(_) => {
                if !next.answering() {
                    return Err(Error::Protocol);
                }
                Ok(Progress::More(next))
            },
            BackendMessage::ParameterStatus(_) => Ok(Progress::More(next)),
            BackendMessage::Authentication { .. } | BackendMessage::BackendKeyData(_) => Err(
                Error::Protocol,
            ),
        }
    }

    fn finish(self) -> (r: Result<Progress, Error>)
        requires
            self.wf(),
        ensures
            match self@.finish() {
                Ok(answers) => r matches Ok(Progress::Done(outcomes)) && outcomes_view(outcomes@)
                    == answers,
                Err(e) => r matches Err(x) && x == e,
            },
    {
        let Pipeline { requests, mut outcomes, rows, failed } = self;
        if failed {
            let ghost answered = outcomes@;
            while outcomes.len() < requests
                invariant
                    answered.len() <= outcomes.len() <= requests,
                    outcomes_view(outcomes@) == outcomes_view(answered) + Seq::new(
                        (outcomes.len() - answered.len()) as nat,
                        |i: int| Answer::Skipped,
                    ),
                decreases requests - outcomes.len(),
            {
                let ghost before = outcomes@;
                outcomes.push(Outcome::Skipped);
                assert(outcomes_view(outcomes@) =~= outcomes_view(before).push(Answer::Skipped));
                assert(outcomes_view(outcomes@) =~= outcomes_view(answered) + Seq::new(
                    (outcomes.len() - answered.len()) as nat,
                    |i: int| Answer::Skipped,
                ));
            }
            Ok(Progress::Done(outcomes))
        } else if outcomes.len() == requests && rows.len() == 0 {
            Ok(Progress::Done(outcomes))
        } else {
            Err(Error::Protocol)
        }
    }
}

} // verus!
