//! What each stage does with one message: forward a successor, drop the
//! message, or report the chunk as finished.
//!
//! A stage takes one message at a time and produces one outcome. Taking the
//! message off its queue, fetching what the message points to, and carrying
//! out the outcome are the caller's part.

use vstd::prelude::*;
use crate::converter::{conversion, convert_at, convert_to_xml, table_assets, ConvertError};
use crate::document::AssetView;
use crate::message::{InputMsg, PipelineMsg, Queue, XmlMsg};
use crate::status::ChunkStatus;
use crate::table::csv_records;
use crate::validator::{document_finding, validate_schema, xml_items};

verus! {

/// A message on its way to the next stage.
#[derive(Debug, PartialEq, Eq)]
pub enum Outbound {
    Converted(XmlMsg),
    Tagged(PipelineMsg),
}

/// Why a message was dropped.
#[derive(Clone, Copy, Debug, PartialEq, Eq, Structural)]
pub enum DropReason {
    /// The message could not be decoded.
    Undecodable,
    /// The source of the chunk could not be fetched.
    SourceUnavailable,
    /// The source could not be converted.
    Unconvertible(ConvertError),
}

/// What a stage made of one message.
#[derive(Debug, PartialEq, Eq)]
pub enum StageOutcome {
    Forward { queue: Queue, message: Outbound },
    Drop { reason: DropReason },
    Complete { job_id: String, status: ChunkStatus },
}

/// Where a rejected document goes.
#[derive(Clone, Copy, Debug, PartialEq, Eq, Structural)]
pub enum Routing {
    /// To the persister, tagged, so that its job still counts the chunk.
    ForwardTagged,
    /// To the dead-letter queue, as it came.
    DeadLetter,
}

/// What the persister has to do before it reports the chunk.
#[derive(Clone, Copy, Debug, PartialEq, Eq, Structural)]
pub enum PersistPlan {
    Insert,
    Skip,
}

/// The statement that stores a document.
pub const INSERT_STATEMENT: &'static str =
    "INSERT INTO xml_storage (job_id, chunk_id, xml_documento, mapper_version) VALUES ($1, $2, $3::xml, $4)";

/// The outcome for a message that could not be decoded: it is dropped, and
/// nothing is forwarded.
pub fn undecodable() -> (outcome: StageOutcome)
    ensures
        outcome == (StageOutcome::Drop { reason: DropReason::Undecodable }),
{
    StageOutcome::Drop { reason: DropReason::Undecodable }
}

/// The converter's outcome for a chunk whose source was fetched, or was not,
/// with the moment of generation given.
///
/// A source that converts is forwarded to validation under the job and chunk
/// of the input. Anything else drops the message.
pub fn convert_chunk_at(input: InputMsg, source: Option<String>, generated_at: &str) -> (outcome:
    StageOutcome)
    ensures
        match outcome {
            StageOutcome::Forward { queue, message: Outbound::Converted(message) } => {
                &&& source is Some
                &&& queue == Queue::XmlValidation
                &&& message.job_id == input.job_id
                &&& message.chunk_id == input.chunk_id
                &&& conversion(
                    csv_records(source->0@),
                    input.job_id@,
                    input.chunk_id,
                    generated_at@,
                ) == Ok::<Seq<char>, ConvertError>(message.xml_content@)
            },
            StageOutcome::Drop { reason: DropReason::Unconvertible(error) } => source is Some
                && table_assets(csv_records(source->0@)) == Err::<Seq<AssetView>, ConvertError>(
                error,
            ),
            StageOutcome::Drop { reason: DropReason::SourceUnavailable } => source is None,
            _ => false,
        },
{
    match source {
        Some(text) => match convert_at(
            text.as_str(),
            input.job_id.as_str(),
            input.chunk_id,
            generated_at,
        ) {
            Ok(xml_content) => StageOutcome::Forward {
                queue: Queue::XmlValidation,
                message: Outbound::Converted(
                    XmlMsg { job_id: input.job_id, chunk_id: input.chunk_id, xml_content },
                ),
            },
            Err(error) => StageOutcome::Drop { reason: DropReason::Unconvertible(error) },
        },
        None => StageOutcome::Drop { reason: DropReason::SourceUnavailable },
    }
}

/// The converter's outcome for a chunk, generated now.
pub fn convert_chunk(input: InputMsg, source: Option<String>) -> (outcome: StageOutcome)
    ensures
        match outcome {
            StageOutcome::Forward { queue, message: Outbound::Converted(message) } => {
                &&& source is Some
                &&& queue == Queue::XmlValidation
                &&& message.job_id == input.job_id
                &&& message.chunk_id == input.chunk_id
                &&& exists|generated_at: Seq<char>|
                    #[trigger] conversion(
                        csv_records(source->0@),
                        input.job_id@,
                        input.chunk_id,
                        generated_at,
                    ) == Ok::<Seq<char>, ConvertError>(message.xml_content@)
            },
            StageOutcome::Drop { reason: DropReason::Unconvertible(error) } => source is Some
                && table_assets(csv_records(source->0@)) == Err::<Seq<AssetView>, ConvertError>(
                error,
            ),
            StageOutcome::Drop { reason: DropReason::SourceUnavailable } => source is None,
            _ => false,
        },
{
    match source {
        Some(text) => match convert_to_xml(text, input.job_id.as_str(), input.chunk_id) {
            Ok(xml_content) => StageOutcome::Forward {
                queue: Queue::XmlValidation,
                message: Outbound::Converted(
                    XmlMsg { job_id: input.job_id, chunk_id: input.chunk_id, xml_content },
                ),
            },
            Err(error) => StageOutcome::Drop { reason: DropReason::Unconvertible(error) },
        },
        None => StageOutcome::Drop { reason: DropReason::SourceUnavailable },
    }
}

/// The status that the validator gives.
pub open spec fn validation_status(valid: bool) -> ChunkStatus {
    if valid {
        ChunkStatus::Success
    } else {
        ChunkStatus::ValidationError
    }
}

/// The validator's outcome for a document that was found valid or not.
///
/// The document is never dropped. Tagged, it goes to the persister whatever
/// the finding; with dead-letter routing a rejected document goes to the
/// error queue as it came.
pub open spec fn validator_outcome(
    message: XmlMsg,
    valid: bool,
    mapper_version: String,
    routing: Routing,
) -> StageOutcome {
    if !valid && routing == Routing::DeadLetter {
        StageOutcome::Forward { queue: Queue::XmlErrors, message: Outbound::Converted(message) }
    } else {
        StageOutcome::Forward {
            queue: Queue::DbPersistence,
            message: Outbound::Tagged(
                PipelineMsg {
                    job_id: message.job_id,
                    chunk_id: message.chunk_id,
                    xml_content: message.xml_content,
                    status: validation_status(valid),
                    mapper_version,
                },
            ),
        }
    }
}

pub fn route_validated(
    message: XmlMsg,
    valid: bool,
    mapper_version: String,
    routing: Routing,
) -> (outcome: StageOutcome)
    ensures
        outcome == validator_outcome(message, valid, mapper_version, routing),
{
    let dead_letter = match routing {
        Routing::DeadLetter => true,
        Routing::ForwardTagged => false,
    };
    if !valid && dead_letter {
        StageOutcome::Forward { queue: Queue::XmlErrors, message: Outbound::Converted(message) }
    } else {
        StageOutcome::Forward {
            queue: Queue::DbPersistence,
            message: Outbound::Tagged(
                PipelineMsg {
                    job_id: message.job_id,
                    chunk_id: message.chunk_id,
                    xml_content: message.xml_content,
                    status: if valid {
                        ChunkStatus::Success
                    } else {
                        ChunkStatus::ValidationError
                    },
                    mapper_version,
                },
            ),
        }
    }
}

/// The validator's outcome for a converted chunk: the document is checked and
/// routed by the finding.
pub fn validate_chunk(message: XmlMsg, mapper_version: String, routing: Routing) -> (outcome:
    StageOutcome)
    ensures
        outcome == validator_outcome(
            message,
            document_finding(xml_items(message.xml_content@)) is Ok,
            mapper_version,
            routing,
        ),
{
    let valid = validate_schema(message.xml_content.as_str());
    route_validated(message, valid, mapper_version, routing)
}

/// Only a chunk that arrived in good state is written to the store.
pub open spec fn plan_for(status: ChunkStatus) -> PersistPlan {
    if status.failed() {
        PersistPlan::Skip
    } else {
        PersistPlan::Insert
    }
}

pub fn persist_plan(message: &PipelineMsg) -> (plan: PersistPlan)
    ensures
        plan == plan_for(message.status),
{
    if message.status.is_failure() {
        PersistPlan::Skip
    } else {
        PersistPlan::Insert
    }
}

/// The status of a chunk after the persister: a failed chunk keeps its
/// status; a good one stays good only if the store took it.
pub open spec fn status_after_persist(status: ChunkStatus, stored: Option<bool>) -> ChunkStatus {
    if status.failed() {
        status
    } else if stored == Some(true) {
        ChunkStatus::Success
    } else {
        ChunkStatus::PersistenceError
    }
}

pub fn final_status(status: ChunkStatus, stored: Option<bool>) -> (last: ChunkStatus)
    ensures
        last == status_after_persist(status, stored),
{
    if status.is_failure() {
        status
    } else {
        match stored {
            Some(true) => ChunkStatus::Success,
            _ => ChunkStatus::PersistenceError,
        }
    }
}

/// The persister's outcome: every message is reported to the completion
/// tracker, once, with its final status. `stored` says how the insert went,
/// `None` where none was made.
pub fn persister_outcome(message: PipelineMsg, stored: Option<bool>) -> (outcome: StageOutcome)
    ensures
        outcome == (StageOutcome::Complete {
            job_id: message.job_id,
            status: status_after_persist(message.status, stored),
        }),
{
    let status = final_status(message.status, stored);
    StageOutcome::Complete { job_id: message.job_id, status }
}

/// Every document that reaches the relational store has passed the
/// structural check: of the messages that the validator forwards, the
/// persister writes those that were found valid and no others, and every one
/// of them, written or not, is reported with a status that tells.
pub proof fn only_valid_documents_are_stored(
    message: XmlMsg,
    valid: bool,
    mapper_version: String,
    stored: Option<bool>,
)
    ensures
        validator_outcome(message, valid, mapper_version, Routing::ForwardTagged) matches StageOutcome::Forward {
            queue: Queue::DbPersistence,
            message: Outbound::Tagged(tagged),
        } && (plan_for(tagged.status) == PersistPlan::Insert <==> valid) && (status_after_persist(
            tagged.status,
            stored,
        ) == ChunkStatus::Success <==> valid && stored == Some(true)),
{
}

/// The chunk number as the relational store holds it, in a signed column of
/// 32 bits: numbers above its range wrap around.
pub open spec fn column_number(chunk_id: u32) -> int {
    if chunk_id <= i32::MAX {
        chunk_id as int
    } else {
        chunk_id - 0x1_0000_0000
    }
}

pub fn chunk_column(chunk_id: u32) -> (number: i32)
    ensures
        number == column_number(chunk_id),
{
    if chunk_id <= 0x7fff_ffff {
        chunk_id as i32
    } else {
        ((chunk_id - 0x8000_0000) as i32) + i32::MIN
    }
}

} // verus!
