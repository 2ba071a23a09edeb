use xml_service::query::{
    MyXmlService, Producer, ProducerAction, ProducerEvent, Query, QueryFailure, QueryResult,
    StreamItem, LISTEN_ADDRESS, QUERY_STATEMENT, STREAM_BUFFER,
};

fn drive(events: Vec<ProducerEvent>) -> (Producer, Vec<StreamItem>, Vec<String>) {
    let mut producer = Producer::Connecting;
    let mut sent = Vec::new();
    let mut trace = Vec::new();
    for event in events {
        let (next, action) = producer.advance(event);
        producer = next;
        match action {
            ProducerAction::Send(item) => {
                trace.push("send".to_string());
                sent.push(item);
            }
            ProducerAction::RunQuery => trace.push("query".to_string()),
            ProducerAction::FetchNext => trace.push("fetch".to_string()),
            ProducerAction::Close => trace.push("close".to_string()),
        }
    }
    (producer, sent, trace)
}

#[test]
fn request_is_bound_to_the_store_and_the_statement() {
    let service = MyXmlService::new("postgres://h/db".to_string());
    assert_eq!(service.db_url(), "postgres://h/db");
    let session = service.get_query_result(Query { query_string: "//Asset".to_string() });
    assert_eq!(session.db_url, "postgres://h/db");
    assert_eq!(session.statement, "SELECT unnest(xpath($1, xml_documento))::text FROM xml_storage");
    assert_eq!(session.statement, QUERY_STATEMENT);
    assert_eq!(session.expression, "//Asset");
    assert_eq!(session.buffer, 10);
    assert_eq!(STREAM_BUFFER, 10);
    assert_eq!(session.producer, Producer::Connecting);
    assert_eq!(LISTEN_ADDRESS, "[::]:50051");
}

#[test]
fn query_without_matches_yields_an_empty_stream() {
    let (state, sent, trace) = drive(vec![ProducerEvent::Connected, ProducerEvent::EndOfRows]);
    assert_eq!(state, Producer::Closed);
    assert!(sent.is_empty());
    assert_eq!(trace, vec!["query", "close"]);
}

#[test]
fn rows_are_sent_one_by_one_in_order() {
    let (state, sent, trace) = drive(vec![
        ProducerEvent::Connected,
        ProducerEvent::Row("<a/>".to_string()),
        ProducerEvent::Sent,
        ProducerEvent::Row("<b/>".to_string()),
        ProducerEvent::Sent,
        ProducerEvent::EndOfRows,
    ]);
    assert_eq!(state, Producer::Closed);
    assert_eq!(
        sent,
        vec![
            StreamItem::Match(QueryResult { result: "<a/>".to_string() }),
            StreamItem::Match(QueryResult { result: "<b/>".to_string() }),
        ]
    );
    assert_eq!(trace, vec!["query", "send", "fetch", "send", "fetch", "close"]);
}

#[test]
fn production_stops_when_the_caller_has_gone() {
    let (state, sent, trace) = drive(vec![
        ProducerEvent::Connected,
        ProducerEvent::Row("<a/>".to_string()),
        ProducerEvent::SendFailed,
        ProducerEvent::Row("<b/>".to_string()),
    ]);
    assert_eq!(state, Producer::Closed);
    assert_eq!(sent.len(), 1);
    assert_eq!(trace, vec!["query", "send", "close", "close"]);
}

#[test]
fn store_failures_end_the_stream_with_an_error() {
    let (state, sent, _) = drive(vec![ProducerEvent::ConnectFailed("refused".to_string())]);
    assert_eq!(state, Producer::Failing);
    assert_eq!(sent, vec![StreamItem::Failure(QueryFailure::Connect("refused".to_string()))]);
    let (state, sent, trace) = drive(vec![
        ProducerEvent::Connected,
        ProducerEvent::Row("<a/>".to_string()),
        ProducerEvent::Sent,
        ProducerEvent::QueryFailed("syntax".to_string()),
        ProducerEvent::Sent,
    ]);
    assert_eq!(state, Producer::Closed);
    assert_eq!(
        sent,
        vec![
            StreamItem::Match(QueryResult { result: "<a/>".to_string() }),
            StreamItem::Failure(QueryFailure::Statement("syntax".to_string())),
        ]
    );
    assert_eq!(trace, vec!["query", "send", "fetch", "send", "close"]);
    let (state, sent, _) = drive(vec![ProducerEvent::Connected, ProducerEvent::QueryFailed("bad".to_string())]);
    assert_eq!(state, Producer::Failing);
    assert_eq!(sent, vec![StreamItem::Failure(QueryFailure::Statement("bad".to_string()))]);
}

#[test]
fn event_out_of_turn_closes_the_stream() {
    assert_eq!(Producer::Connecting.advance(ProducerEvent::Sent), (Producer::Closed, ProducerAction::Close));
    assert_eq!(Producer::Sending.advance(ProducerEvent::EndOfRows), (Producer::Closed, ProducerAction::Close));
    assert_eq!(Producer::Closed.advance(ProducerEvent::Connected), (Producer::Closed, ProducerAction::Close));
    assert_eq!(Producer::Failing.advance(ProducerEvent::SendFailed), (Producer::Closed, ProducerAction::Close));
}

#[test]
fn failure_messages_name_the_cause() {
    assert_eq!(QueryFailure::Connect("timeout".to_string()).message(), "DB Connect Failed: timeout");
    assert_eq!(QueryFailure::Statement("bad xpath".to_string()).message(), "SQL Error: bad xpath");
}
