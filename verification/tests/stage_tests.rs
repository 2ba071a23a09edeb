use xml_service::converter::ConvertError;
use xml_service::message::{InputMsg, PipelineMsg, Queue, Stage, XmlMsg};
use xml_service::stage::{
    chunk_column, convert_chunk, convert_chunk_at, final_status, persist_plan, persister_outcome,
    route_validated, undecodable, validate_chunk, DropReason, Outbound, PersistPlan, Routing,
    StageOutcome, INSERT_STATEMENT,
};
use xml_service::status::ChunkStatus;

fn input() -> InputMsg {
    InputMsg { job_id: "j1".into(), s3_bucket: "b".into(), s3_key: "k".into(), chunk_id: 2 }
}

const GOOD: &str = "<MarketReport JobID=\"j\" ChunkID=\"1\" GeneratedAt=\"t\"><Asset><FundamentalData></FundamentalData><DailyData></DailyData></Asset></MarketReport>";

#[test]
fn queues_have_their_keys() {
    assert_eq!(Queue::CsvProcessing.name(), "queue:csv_processing");
    assert_eq!(Queue::XmlValidation.name(), "queue:xml_validation");
    assert_eq!(Queue::DbPersistence.name(), "queue:db_persistence");
    assert_eq!(Queue::XmlErrors.name(), "queue:xml_errors");
    assert_eq!(Stage::Converter.input_queue(), Queue::CsvProcessing);
    assert_eq!(Stage::Validator.input_queue(), Queue::XmlValidation);
    assert_eq!(Stage::Persister.input_queue(), Queue::DbPersistence);
}

#[test]
fn undecodable_message_is_dropped() {
    assert_eq!(undecodable(), StageOutcome::Drop { reason: DropReason::Undecodable });
}

#[test]
fn converter_forwards_the_document() {
    let csv = "Ticker,Nome,Sector,PriceSMA_EUR,VolumeAvg\nA,B,C,1,2\n".to_string();
    match convert_chunk_at(input(), Some(csv.clone()), "t") {
        StageOutcome::Forward { queue, message: Outbound::Converted(message) } => {
            assert_eq!(queue, Queue::XmlValidation);
            assert_eq!(message.job_id, "j1");
            assert_eq!(message.chunk_id, 2);
            assert!(message.xml_content.starts_with("<MarketReport JobID=\"j1\" ChunkID=\"2\" GeneratedAt=\"t\"><Asset Ticker=\"A\">"));
        }
        other => panic!("unexpected outcome {:?}", other),
    }
    assert!(matches!(
        convert_chunk(input(), Some(csv)),
        StageOutcome::Forward { queue: Queue::XmlValidation, message: Outbound::Converted(_) }
    ));
}

#[test]
fn converter_drops_what_it_cannot_convert() {
    assert_eq!(
        convert_chunk_at(input(), None, "t"),
        StageOutcome::Drop { reason: DropReason::SourceUnavailable }
    );
    assert_eq!(
        convert_chunk(input(), None),
        StageOutcome::Drop { reason: DropReason::SourceUnavailable }
    );
    assert_eq!(
        convert_chunk_at(input(), Some("Ticker\nA\n".to_string()), "t"),
        StageOutcome::Drop { reason: DropReason::Unconvertible(ConvertError::MissingColumn) }
    );
    assert_eq!(
        convert_chunk(input(), Some("a,b\n1\n".to_string())),
        StageOutcome::Drop { reason: DropReason::Unconvertible(ConvertError::MalformedCsv) }
    );
}

#[test]
fn validator_tags_and_forwards_every_document() {
    let good = XmlMsg { job_id: "j".into(), chunk_id: 1, xml_content: GOOD.into() };
    assert_eq!(
        validate_chunk(good, "v1".into(), Routing::ForwardTagged),
        StageOutcome::Forward {
            queue: Queue::DbPersistence,
            message: Outbound::Tagged(PipelineMsg {
                job_id: "j".into(),
                chunk_id: 1,
                xml_content: GOOD.into(),
                status: ChunkStatus::Success,
                mapper_version: "v1".into(),
            }),
        }
    );
    let bad = XmlMsg { job_id: "j".into(), chunk_id: 2, xml_content: "<x/>".into() };
    assert_eq!(
        validate_chunk(bad, "v1".into(), Routing::ForwardTagged),
        StageOutcome::Forward {
            queue: Queue::DbPersistence,
            message: Outbound::Tagged(PipelineMsg {
                job_id: "j".into(),
                chunk_id: 2,
                xml_content: "<x/>".into(),
                status: ChunkStatus::ValidationError,
                mapper_version: "v1".into(),
            }),
        }
    );
}

#[test]
fn dead_letter_routing_sends_rejects_to_the_error_queue() {
    let bad = XmlMsg { job_id: "j".into(), chunk_id: 2, xml_content: "<x/>".into() };
    assert_eq!(
        validate_chunk(bad, "v1".into(), Routing::DeadLetter),
        StageOutcome::Forward {
            queue: Queue::XmlErrors,
            message: Outbound::Converted(XmlMsg {
                job_id: "j".into(),
                chunk_id: 2,
                xml_content: "<x/>".into(),
            }),
        }
    );
    let good = XmlMsg { job_id: "j".into(), chunk_id: 1, xml_content: GOOD.into() };
    assert!(matches!(
        route_validated(good, true, "v".into(), Routing::DeadLetter),
        StageOutcome::Forward { queue: Queue::DbPersistence, message: Outbound::Tagged(_) }
    ));
}

fn tagged(status: ChunkStatus) -> PipelineMsg {
    PipelineMsg {
        job_id: "j".into(),
        chunk_id: 1,
        xml_content: GOOD.into(),
        status,
        mapper_version: "v1".into(),
    }
}

#[test]
fn persister_inserts_only_good_chunks() {
    assert_eq!(persist_plan(&tagged(ChunkStatus::Success)), PersistPlan::Insert);
    assert_eq!(persist_plan(&tagged(ChunkStatus::ValidationError)), PersistPlan::Skip);
    assert_eq!(persist_plan(&tagged(ChunkStatus::PersistenceError)), PersistPlan::Skip);
    assert!(INSERT_STATEMENT.starts_with("INSERT INTO xml_storage (job_id, chunk_id, xml_documento, mapper_version)"));
}

#[test]
fn persister_reports_every_chunk_with_its_final_status() {
    assert_eq!(
        persister_outcome(tagged(ChunkStatus::Success), Some(true)),
        StageOutcome::Complete { job_id: "j".into(), status: ChunkStatus::Success }
    );
    assert_eq!(
        persister_outcome(tagged(ChunkStatus::Success), Some(false)),
        StageOutcome::Complete { job_id: "j".into(), status: ChunkStatus::PersistenceError }
    );
    assert_eq!(
        persister_outcome(tagged(ChunkStatus::ValidationError), None),
        StageOutcome::Complete { job_id: "j".into(), status: ChunkStatus::ValidationError }
    );
    assert_eq!(final_status(ChunkStatus::Success, None), ChunkStatus::PersistenceError);
    assert_eq!(final_status(ChunkStatus::ValidationError, Some(true)), ChunkStatus::ValidationError);
    assert_eq!(final_status(ChunkStatus::PersistenceError, Some(true)), ChunkStatus::PersistenceError);
}

#[test]
fn chunk_number_wraps_into_the_signed_column() {
    assert_eq!(chunk_column(0), 0);
    assert_eq!(chunk_column(2147483647), 2147483647);
    assert_eq!(chunk_column(2147483648), -2147483648);
    assert_eq!(chunk_column(4294967295), -1);
}
