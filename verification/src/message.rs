//! The messages that the stages hand to each other, and the queues that carry them.

use vstd::prelude::*;
use crate::status::ChunkStatus;

verus! {

/// A chunk to convert: where its tabular source lies in the object store.
#[derive(Debug, PartialEq, Eq)]
pub struct InputMsg {
    pub job_id: String,
    pub s3_bucket: String,
    pub s3_key: String,
    pub chunk_id: u32,
}

/// A converted chunk: the document, not yet checked.
#[derive(Debug, PartialEq, Eq)]
pub struct XmlMsg {
    pub job_id: String,
    pub chunk_id: u32,
    pub xml_content: String,
}

/// A checked chunk: the document with its status and the version of the
/// mapping that produced it.
#[derive(Debug, PartialEq, Eq)]
pub struct PipelineMsg {
    pub job_id: String,
    pub chunk_id: u32,
    pub xml_content: String,
    pub status: ChunkStatus,
    pub mapper_version: String,
}

/// The queues of the pipeline.
#[derive(Clone, Copy, Debug, PartialEq, Eq, Structural)]
pub enum Queue {
    CsvProcessing,
    XmlValidation,
    DbPersistence,
    XmlErrors,
}

/// The three stages.
#[derive(Clone, Copy, Debug, PartialEq, Eq, Structural)]
pub enum Stage {
    Converter,
    Validator,
    Persister,
}

impl Queue {
    /// The key of the queue in the queue store.
    pub open spec fn key(self) -> Seq<char> {
        match self {
            Queue::CsvProcessing => "queue:csv_processing"@,
            Queue::XmlValidation => "queue:xml_validation"@,
            Queue::DbPersistence => "queue:db_persistence"@,
            Queue::XmlErrors => "queue:xml_errors"@,
        }
    }

    pub fn name(&self) -> (name: &'static str)
        ensures
            name@ == self.key(),
    {
        match self {
            Queue::CsvProcessing => "queue:csv_processing",
            Queue::XmlValidation => "queue:xml_validation",
            Queue::DbPersistence => "queue:db_persistence",
            Queue::XmlErrors => "queue:xml_errors",
        }
    }
}

impl Stage {
    /// The queue that a stage takes its work from.
    pub open spec fn source(self) -> Queue {
        match self {
            Stage::Converter => Queue::CsvProcessing,
            Stage::Validator => Queue::XmlValidation,
            Stage::Persister => Queue::DbPersistence,
        }
    }

    pub fn input_queue(&self) -> (queue: Queue)
        ensures
            queue == self.source(),
    {
        match self {
            Stage::Converter => Queue::CsvProcessing,
            Stage::Validator => Queue::XmlValidation,
            Stage::Persister => Queue::DbPersistence,
        }
    }
}

} // verus!
