//! The status tags that travel with a chunk and with a finished job.

use vstd::prelude::*;
use crate::text::same_text;

verus! {

/// How far a chunk got: converted and valid, rejected by the validator, or
/// refused by the relational store.
#[derive(Clone, Copy, Debug, PartialEq, Eq, Structural)]
pub enum ChunkStatus {
    Success,
    ValidationError,
    PersistenceError,
}

/// The aggregate status of a job whose chunks have all been seen.
#[derive(Clone, Copy, Debug, PartialEq, Eq, Structural)]
pub enum JobStatus {
    Success,
    CompletedWithErrors,
}

impl ChunkStatus {
    /// The tag as it is written in a pipeline message.
    pub open spec fn label(self) -> Seq<char> {
        match self {
            ChunkStatus::Success => "OK"@,
            ChunkStatus::ValidationError => "ERRO_VALIDACAO"@,
            ChunkStatus::PersistenceError => "ERRO_PERSISTENCIA"@,
        }
    }

    /// The status that a tag stands for, if it is one of the three.
    pub open spec fn from_label(text: Seq<char>) -> Option<ChunkStatus> {
        if text == "OK"@ {
            Some(ChunkStatus::Success)
        } else if text == "ERRO_VALIDACAO"@ {
            Some(ChunkStatus::ValidationError)
        } else if text == "ERRO_PERSISTENCIA"@ {
            Some(ChunkStatus::PersistenceError)
        } else {
            None
        }
    }

    pub fn as_str(&self) -> (tag: &'static str)
        ensures
            tag@ == self.label(),
    {
        match self {
            ChunkStatus::Success => "OK",
            ChunkStatus::ValidationError => "ERRO_VALIDACAO",
            ChunkStatus::PersistenceError => "ERRO_PERSISTENCIA",
        }
    }

    pub fn parse(text: &str) -> (status: Option<ChunkStatus>)
        ensures
            status == Self::from_label(text@),
    {
        if same_text(text, "OK") {
            Some(ChunkStatus::Success)
        } else if same_text(text, "ERRO_VALIDACAO") {
            Some(ChunkStatus::ValidationError)
        } else if same_text(text, "ERRO_PERSISTENCIA") {
            Some(ChunkStatus::PersistenceError)
        } else {
            None
        }
    }

    /// The status of a chunk whose message carries `text` as its tag. A tag
    /// that is none of the three still says that the chunk is not good: the
    /// chunk counts as rejected, so that its job counts it all the same.
    pub open spec fn of_tag(text: Seq<char>) -> ChunkStatus {
        match Self::from_label(text) {
            Some(status) => status,
            None => ChunkStatus::ValidationError,
        }
    }

    pub fn from_tag(text: &str) -> (status: ChunkStatus)
        ensures
            status == Self::of_tag(text@),
    {
        match ChunkStatus::parse(text) {
            Some(status) => status,
            None => ChunkStatus::ValidationError,
        }
    }

    pub open spec fn failed(self) -> bool {
        self != ChunkStatus::Success
    }

    /// Whether the chunk counts as an error of its job.
    pub fn is_failure(&self) -> (failed: bool)
        ensures
            failed == self.failed(),
    {
        match self {
            ChunkStatus::Success => false,
            _ => true,
        }
    }

    /// Only the tag `OK` stands for a good chunk: whatever else a message
    /// carries, its chunk is reported as failed.
    pub proof fn only_ok_is_good(text: Seq<char>)
        ensures
            Self::of_tag(text).failed() <==> text != "OK"@,
    {
        reveal_strlit("OK");
        reveal_strlit("ERRO_VALIDACAO");
        reveal_strlit("ERRO_PERSISTENCIA");
        assert("OK"@.len() == 2);
        assert("ERRO_VALIDACAO"@.len() == 14);
        assert("ERRO_PERSISTENCIA"@.len() == 17);
    }

    /// Reading a tag back gives the status that wrote it.
    pub proof fn label_round_trip(self)
        ensures
            Self::from_label(self.label()) == Some(self),
    {
        reveal_strlit("OK");
        reveal_strlit("ERRO_VALIDACAO");
        reveal_strlit("ERRO_PERSISTENCIA");
        assert("OK"@.len() == 2);
        assert("ERRO_VALIDACAO"@.len() == 14);
        assert("ERRO_PERSISTENCIA"@.len() == 17);
    }
}

impl JobStatus {
    /// The tag as it is written in the completion callback.
    pub open spec fn label(self) -> Seq<char> {
        match self {
            JobStatus::Success => "OK"@,
            JobStatus::CompletedWithErrors => "COMPLETED_WITH_ERRORS"@,
        }
    }

    /// `Success` for a job without a failed chunk, `CompletedWithErrors` otherwise.
    pub open spec fn of_errors(errors: int) -> JobStatus {
        if errors > 0 {
            JobStatus::CompletedWithErrors
        } else {
            JobStatus::Success
        }
    }

    pub fn as_str(&self) -> (tag: &'static str)
        ensures
            tag@ == self.label(),
    {
        match self {
            JobStatus::Success => "OK",
            JobStatus::CompletedWithErrors => "COMPLETED_WITH_ERRORS",
        }
    }

    pub fn from_error_count(errors: i64) -> (status: JobStatus)
        ensures
            status == Self::of_errors(errors as int),
    {
        if errors > 0 {
            JobStatus::CompletedWithErrors
        } else {
            JobStatus::Success
        }
    }
}

} // verus!
