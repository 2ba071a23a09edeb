//! The notifier: what is sent out when a job, or a chunk, has a status to report.
//!
//! A notification is sent once. A failed delivery is logged and not repeated.

use vstd::prelude::*;
use crate::status::{ChunkStatus, JobStatus};

verus! {

/// How long the callback may take, in seconds.
pub const CALLBACK_TIMEOUT_SECONDS: u64 = 10;

/// The completion callback of a job.
#[derive(Debug, PartialEq, Eq)]
pub struct JobNotification {
    pub job_id: String,
    pub status: JobStatus,
}

/// What a request brings along for the reports on its chunks.
#[derive(Debug, PartialEq, Eq)]
pub struct RequestMetadata {
    pub request_id: String,
    pub webhook_url: String,
    pub batch_index: u32,
    pub total_batch: u32,
}

/// The report on one chunk.
#[derive(Debug, PartialEq, Eq)]
pub struct WebhookPayload {
    pub request_id: String,
    pub status: ChunkStatus,
    pub db_id: Option<i32>,
    pub detail: String,
    pub batch_index: u32,
    pub total_batch: u32,
}

/// One outbound call: where to post, and what.
#[derive(Debug, PartialEq, Eq)]
pub struct WebhookCall {
    pub url: String,
    pub payload: WebhookPayload,
}

/// What is left to do after a callback was attempted.
#[derive(Clone, Copy, Debug, PartialEq, Eq, Structural)]
pub enum CallbackStep {
    /// The callback was delivered.
    Done,
    /// The callback was not delivered: the failure is logged. It is not sent
    /// again.
    LogFailure,
}

/// The step after the one attempt of a callback. Delivery is best effort:
/// no outcome leads to another attempt.
pub open spec fn step_after_callback(delivered: bool) -> CallbackStep {
    if delivered {
        CallbackStep::Done
    } else {
        CallbackStep::LogFailure
    }
}

pub fn after_callback(delivered: bool) -> (step: CallbackStep)
    ensures
        step == step_after_callback(delivered),
{
    if delivered {
        CallbackStep::Done
    } else {
        CallbackStep::LogFailure
    }
}

/// The callback for a job that the completion tracker has declared done.
pub fn job_notification(job_id: String, status: JobStatus) -> (notification: JobNotification)
    ensures
        notification == (JobNotification { job_id, status }),
{
    JobNotification { job_id, status }
}

/// The call that reports the status of one chunk of a request: it goes to the
/// address that the request named, and says which part of how many it is about.
pub fn send_status(meta: &RequestMetadata, status: ChunkStatus, db_id: Option<i32>, msg: &str) -> (call:
    WebhookCall)
    ensures
        call.url@ == meta.webhook_url@,
        call.payload.request_id@ == meta.request_id@,
        call.payload.status == status,
        call.payload.db_id == db_id,
        call.payload.detail@ == msg@,
        call.payload.batch_index == meta.batch_index,
        call.payload.total_batch == meta.total_batch,
{
    WebhookCall {
        url: meta.webhook_url.clone(),
        payload: WebhookPayload {
            request_id: meta.request_id.clone(),
            status,
            db_id,
            detail: String::from_str(msg),
            batch_index: meta.batch_index,
            total_batch: meta.total_batch,
        },
    }
}

/// The text of fragments merged into one document: each fragment on its own
/// line between the opening and the closing tag.
pub open spec fn merged(fragments: Seq<String>) -> Seq<char>
    decreases fragments.len(),
{
    if fragments.len() == 0 {
        "<Ativos>\n"@
    } else {
        merged(fragments.drop_last()) + fragments.last()@ + "\n"@
    }
}

/// Merges document fragments into one document.
pub fn merge_xml(fragments: Vec<String>) -> (xml: String)
    ensures
        xml@ == merged(fragments@) + "</Ativos>"@,
{
    let mut xml = String::from_str("<Ativos>\n");
    let mut i: usize = 0;
    while i < fragments.len()
        invariant
            i <= fragments.len(),
            xml@ == merged(fragments@.take(i as int)),
        decreases fragments.len() - i,
    {
        assert(fragments@.take(i + 1).drop_last() == fragments@.take(i as int));
        xml.append(fragments[i].as_str());
        xml.append("\n");
        i = i + 1;
    }
    assert(fragments@.take(i as int) == fragments@);
    xml.append("</Ativos>");
    xml
}

} // verus!
