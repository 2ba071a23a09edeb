//! The streaming query service: one producer per request, which hands each
//! match to the caller as it is read from the store.
//!
//! The producer neither connects nor sends. It says what to do next and takes
//! the caller's report of how that went.

use vstd::prelude::*;

verus! {

/// The statement that a query runs; its one parameter is the expression.
pub const QUERY_STATEMENT: &'static str =
    "SELECT unnest(xpath($1, xml_documento))::text FROM xml_storage";

/// How many items may wait for a slow consumer before the producer blocks.
pub const STREAM_BUFFER: usize = 10;

/// The address that the service listens on.
pub const LISTEN_ADDRESS: &'static str = "[::]:50051";

/// The service, bound to one relational store.
#[derive(Debug, PartialEq, Eq)]
pub struct MyXmlService {
    db_url: String,
}

/// A request: an expression over the stored documents.
#[derive(Debug, PartialEq, Eq)]
pub struct Query {
    pub query_string: String,
}

/// One match.
#[derive(Debug, PartialEq, Eq)]
pub struct QueryResult {
    pub result: String,
}

/// Why a stream ended in an error; each carries what the store reported.
#[derive(Debug, PartialEq, Eq)]
pub enum QueryFailure {
    Connect(String),
    Statement(String),
}

/// What goes to the caller.
#[derive(Debug, PartialEq, Eq)]
pub enum StreamItem {
    Match(QueryResult),
    Failure(QueryFailure),
}

/// Where the producer of one request stands.
#[derive(Clone, Copy, Debug, PartialEq, Eq, Structural)]
pub enum Producer {
    Connecting,
    Querying,
    Sending,
    Fetching,
    Failing,
    Closed,
}

/// What the caller reports.
#[derive(Debug, PartialEq, Eq)]
pub enum ProducerEvent {
    Connected,
    ConnectFailed(String),
    Row(String),
    EndOfRows,
    QueryFailed(String),
    Sent,
    SendFailed,
}

/// What the caller has to do next.
#[derive(Debug, PartialEq, Eq)]
pub enum ProducerAction {
    RunQuery,
    FetchNext,
    Send(StreamItem),
    Close,
}

/// What a request needs to be served: where to connect first, what to run,
/// and the producer at its start.
#[derive(Debug, PartialEq, Eq)]
pub struct QuerySession {
    pub db_url: String,
    pub statement: &'static str,
    pub expression: String,
    pub buffer: usize,
    pub producer: Producer,
}

impl Producer {
    /// The producer after an event, and what to do next.
    ///
    /// A row is sent on before the next one is fetched. The end of the rows
    /// closes the stream. A failure of the store is sent as the last item. A
    /// send that fails means that the caller has gone: the stream is closed
    /// and nothing more is fetched. An event that does not belong to the
    /// state closes the stream.
    pub open spec fn after(self, event: ProducerEvent) -> (Producer, ProducerAction) {
        match (self, event) {
            (Producer::Connecting, ProducerEvent::Connected) => (
                Producer::Querying,
                ProducerAction::RunQuery,
            ),
            (Producer::Connecting, ProducerEvent::ConnectFailed(reason)) => (
                Producer::Failing,
                ProducerAction::Send(StreamItem::Failure(QueryFailure::Connect(reason))),
            ),
            (Producer::Querying, ProducerEvent::Row(value)) => (
                Producer::Sending,
                ProducerAction::Send(StreamItem::Match(QueryResult { result: value })),
            ),
            (Producer::Fetching, ProducerEvent::Row(value)) => (
                Producer::Sending,
                ProducerAction::Send(StreamItem::Match(QueryResult { result: value })),
            ),
            (Producer::Querying, ProducerEvent::QueryFailed(reason)) => (
                Producer::Failing,
                ProducerAction::Send(StreamItem::Failure(QueryFailure::Statement(reason))),
            ),
            (Producer::Fetching, ProducerEvent::QueryFailed(reason)) => (
                Producer::Failing,
                ProducerAction::Send(StreamItem::Failure(QueryFailure::Statement(reason))),
            ),
            (Producer::Sending, ProducerEvent::Sent) => (
                Producer::Fetching,
                ProducerAction::FetchNext,
            ),
            _ => (Producer::Closed, ProducerAction::Close),
        }
    }

    pub fn advance(self, event: ProducerEvent) -> (next: (Producer, ProducerAction))
        ensures
            next == self.after(event),
    {
        match (self, event) {
            (Producer::Connecting, ProducerEvent::Connected) => (
                Producer::Querying,
                ProducerAction::RunQuery,
            ),
            (Producer::Connecting, ProducerEvent::ConnectFailed(reason)) => (
                Producer::Failing,
                ProducerAction::Send(StreamItem::Failure(QueryFailure::Connect(reason))),
            ),
            (Producer::Querying, ProducerEvent::Row(value)) => (
                Producer::Sending,
                ProducerAction::Send(StreamItem::Match(QueryResult { result: value })),
            ),
            (Producer::Fetching, ProducerEvent::Row(value)) => (
                Producer::Sending,
                ProducerAction::Send(StreamItem::Match(QueryResult { result: value })),
            ),
            (Producer::Querying, ProducerEvent::QueryFailed(reason)) => (
                Producer::Failing,
                ProducerAction::Send(StreamItem::Failure(QueryFailure::Statement(reason))),
            ),
            (Producer::Fetching, ProducerEvent::QueryFailed(reason)) => (
                Producer::Failing,
                ProducerAction::Send(StreamItem::Failure(QueryFailure::Statement(reason))),
            ),
            (Producer::Sending, ProducerEvent::Sent) => (
                Producer::Fetching,
                ProducerAction::FetchNext,
            ),
            _ => (Producer::Closed, ProducerAction::Close),
        }
    }

    /// The producer after a series of events, and what it asked to send.
    pub open spec fn run(self, events: Seq<ProducerEvent>) -> (Producer, Seq<StreamItem>)
        decreases events.len(),
    {
        if events.len() == 0 {
            (self, Seq::empty())
        } else {
            let (before, sent) = self.run(events.drop_last());
            let (next, action) = before.after(events.last());
            (
                next,
                match action {
                    ProducerAction::Send(item) => sent.push(item),
                    _ => sent,
                },
            )
        }
    }
}

impl QueryFailure {
    /// The message that the caller sees.
    pub open spec fn text(self) -> Seq<char> {
        match self {
            QueryFailure::Connect(reason) => "DB Connect Failed: "@ + reason@,
            QueryFailure::Statement(reason) => "SQL Error: "@ + reason@,
        }
    }

    pub fn message(&self) -> (message: String)
        ensures
            message@ == self.text(),
    {
        match self {
            QueryFailure::Connect(reason) => {
                let mut message = String::from_str("DB Connect Failed: ");
                message.append(reason.as_str());
                message
            },
            QueryFailure::Statement(reason) => {
                let mut message = String::from_str("SQL Error: ");
                message.append(reason.as_str());
                message
            },
        }
    }
}

impl MyXmlService {
    pub closed spec fn store(&self) -> String {
        self.db_url
    }

    pub fn new(db_url: String) -> (service: MyXmlService)
        ensures
            service.store() == db_url,
    {
        MyXmlService { db_url }
    }

    pub fn db_url(&self) -> (url: &str)
        ensures
            url@ == self.store()@,
    {
        self.db_url.as_str()
    }

    /// Accepts a request: the stream is produced apart from the accepting
    /// path, from a connection of its own, through a buffer of bounded size.
    pub fn get_query_result(&self, request: Query) -> (session: QuerySession)
        ensures
            session.db_url@ == self.store()@,
            session.statement@ == QUERY_STATEMENT@,
            session.expression == request.query_string,
            session.buffer == STREAM_BUFFER,
            session.producer == Producer::Connecting,
    {
        QuerySession {
            db_url: self.db_url.clone(),
            statement: QUERY_STATEMENT,
            expression: request.query_string,
            buffer: STREAM_BUFFER,
            producer: Producer::Connecting,
        }
    }
}

/// The events of a query whose rows are all read and all taken by the caller.
pub open spec fn served(rows: Seq<String>) -> Seq<ProducerEvent>
    decreases rows.len(),
{
    if rows.len() == 0 {
        seq![ProducerEvent::Connected]
    } else {
        served(rows.drop_last()).push(ProducerEvent::Row(rows.last())).push(ProducerEvent::Sent)
    }
}

/// The matches of rows, in their order.
pub open spec fn matches_of(rows: Seq<String>) -> Seq<StreamItem> {
    Seq::new(rows.len(), |i: int| StreamItem::Match(QueryResult { result: rows[i] }))
}

/// Every row goes to the caller, in the order in which the store gave it,
/// each before the next one is fetched; and when the rows end, the stream is
/// closed with nothing added.
pub proof fn rows_are_streamed_in_order(rows: Seq<String>)
    ensures
        Producer::Connecting.run(served(rows)).1 == matches_of(rows),
        Producer::Connecting.run(served(rows)).0 == if rows.len() == 0 {
            Producer::Querying
        } else {
            Producer::Fetching
        },
        Producer::Connecting.run(served(rows).push(ProducerEvent::EndOfRows)) == (
            Producer::Closed,
            matches_of(rows),
        ),
    decreases rows.len(),
{
    let events = served(rows);
    if rows.len() == 0 {
        assert(events.drop_last() == Seq::<ProducerEvent>::empty());
        assert(Producer::Connecting.run(events.drop_last()).0 == Producer::Connecting);
        assert(Producer::Connecting.run(events).1 =~= matches_of(rows));
    } else {
        rows_are_streamed_in_order(rows.drop_last());
        let earlier = served(rows.drop_last());
        let with_row = earlier.push(ProducerEvent::Row(rows.last()));
        assert(with_row.drop_last() == earlier);
        assert(events.drop_last() == with_row);
        assert(Producer::Connecting.run(with_row).0 == Producer::Sending);
        assert(Producer::Connecting.run(events).1 =~= matches_of(rows));
    }
    let closing = events.push(ProducerEvent::EndOfRows);
    assert(closing.drop_last() == events);
}

/// A query that matches nothing gives an empty stream and no error.
pub proof fn no_match_is_an_empty_stream()
    ensures
        Producer::Connecting.run(seq![ProducerEvent::Connected, ProducerEvent::EndOfRows]) == (
            Producer::Closed,
            Seq::<StreamItem>::empty(),
        ),
{
    rows_are_streamed_in_order(Seq::empty());
    assert(served(Seq::empty()).push(ProducerEvent::EndOfRows) == seq![
        ProducerEvent::Connected,
        ProducerEvent::EndOfRows,
    ]);
    assert(matches_of(Seq::empty()) =~= Seq::<StreamItem>::empty());
}

/// Once the stream is closed, whether by its end, by an error or because the
/// caller has gone, nothing more is sent.
pub proof fn closed_stream_stays_silent(events: Seq<ProducerEvent>)
    ensures
        Producer::Closed.run(events) == (Producer::Closed, Seq::<StreamItem>::empty()),
    decreases events.len(),
{
    if events.len() > 0 {
        closed_stream_stays_silent(events.drop_last());
    }
}

} // verus!
