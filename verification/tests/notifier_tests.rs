use xml_service::config::{persister_settings, queue_settings, ConfigError, QueueSettings};
use xml_service::notifier::{
    after_callback, job_notification, merge_xml, send_status, CallbackStep, JobNotification,
    RequestMetadata, WebhookPayload, CALLBACK_TIMEOUT_SECONDS,
};
use xml_service::status::{ChunkStatus, JobStatus};
use xml_service::tracker::{value_reply, StoreReply};

#[test]
fn status_tags_are_the_wire_tags() {
    assert_eq!(ChunkStatus::Success.as_str(), "OK");
    assert_eq!(ChunkStatus::ValidationError.as_str(), "ERRO_VALIDACAO");
    assert_eq!(ChunkStatus::PersistenceError.as_str(), "ERRO_PERSISTENCIA");
    assert_eq!(JobStatus::Success.as_str(), "OK");
    assert_eq!(JobStatus::CompletedWithErrors.as_str(), "COMPLETED_WITH_ERRORS");
}

#[test]
fn status_tags_read_back() {
    for status in [ChunkStatus::Success, ChunkStatus::ValidationError, ChunkStatus::PersistenceError] {
        assert_eq!(ChunkStatus::parse(status.as_str()), Some(status));
    }
    assert_eq!(ChunkStatus::parse("ok"), None);
    assert_eq!(ChunkStatus::parse(""), None);
    assert_eq!(ChunkStatus::parse("COMPLETED_WITH_ERRORS"), None);
    assert!(!ChunkStatus::Success.is_failure());
    assert!(ChunkStatus::ValidationError.is_failure());
    assert!(ChunkStatus::PersistenceError.is_failure());
}

#[test]
fn job_status_follows_the_error_count() {
    assert_eq!(JobStatus::from_error_count(0), JobStatus::Success);
    assert_eq!(JobStatus::from_error_count(1), JobStatus::CompletedWithErrors);
    assert_eq!(JobStatus::from_error_count(-3), JobStatus::Success);
}

#[test]
fn job_notification_names_job_and_status() {
    assert_eq!(
        job_notification("j7".to_string(), JobStatus::CompletedWithErrors),
        JobNotification { job_id: "j7".to_string(), status: JobStatus::CompletedWithErrors }
    );
    assert_eq!(CALLBACK_TIMEOUT_SECONDS, 10);
}

#[test]
fn chunk_report_goes_to_the_address_of_its_request() {
    let meta = RequestMetadata {
        request_id: "r1".to_string(),
        webhook_url: "http://consumer/hook".to_string(),
        batch_index: 2,
        total_batch: 5,
    };
    let call = send_status(&meta, ChunkStatus::PersistenceError, Some(17), "insert failed");
    assert_eq!(call.url, "http://consumer/hook");
    assert_eq!(
        call.payload,
        WebhookPayload {
            request_id: "r1".to_string(),
            status: ChunkStatus::PersistenceError,
            db_id: Some(17),
            detail: "insert failed".to_string(),
            batch_index: 2,
            total_batch: 5,
        }
    );
}

#[test]
fn fragments_are_merged_line_by_line() {
    assert_eq!(merge_xml(vec![]), "<Ativos>\n</Ativos>");
    assert_eq!(
        merge_xml(vec!["<Ativo/>".to_string(), "<Ativo Ticker=\"A\"/>".to_string()]),
        "<Ativos>\n<Ativo/>\n<Ativo Ticker=\"A\"/>\n</Ativos>"
    );
}

#[test]
fn queue_settings_need_a_host() {
    assert_eq!(queue_settings(None, Some("1".into()), None), Err(ConfigError::MissingQueueHost));
    assert_eq!(
        queue_settings(Some("cache".into()), None, None),
        Ok(QueueSettings { host: "cache".into(), port: "6379".into(), password: "".into() })
    );
    let full = queue_settings(Some("cache".into()), Some("7000".into()), Some("pw".into())).unwrap();
    assert_eq!(full.url(), "redis://:pw@cache:7000");
    assert_eq!(queue_settings(Some("c".into()), None, None).unwrap().url(), "redis://c:6379");
}

#[test]
fn persister_settings_report_the_first_missing_value() {
    let all = persister_settings(
        Some("cache".into()),
        None,
        None,
        Some("postgres://u:p@h/db".into()),
        Some("http://hook".into()),
    )
    .unwrap();
    assert_eq!(all.database_url, "postgres://u:p@h/db?sslmode=require");
    assert_eq!(all.callback_url, "http://hook");
    assert_eq!(all.queue.port, "6379");
    assert_eq!(
        persister_settings(None, None, None, None, None),
        Err(ConfigError::MissingQueueHost)
    );
    assert_eq!(
        persister_settings(Some("c".into()), None, None, None, None),
        Err(ConfigError::MissingDatabaseUrl)
    );
    assert_eq!(
        persister_settings(Some("c".into()), None, None, Some("postgres://h".into()), None),
        Err(ConfigError::MissingCallbackUrl)
    );
}

#[test]
fn stored_text_becomes_a_value() {
    assert_eq!(value_reply(Some("12")), StoreReply::Value(Some(12)));
    assert_eq!(value_reply(Some("twelve")), StoreReply::Value(None));
    assert_eq!(value_reply(None), StoreReply::Value(None));
}

#[test]
fn callback_is_attempted_once() {
    assert_eq!(after_callback(true), CallbackStep::Done);
    assert_eq!(after_callback(false), CallbackStep::LogFailure);
}

#[test]
fn unknown_tag_counts_as_a_failed_chunk() {
    assert_eq!(ChunkStatus::from_tag("OK"), ChunkStatus::Success);
    assert_eq!(ChunkStatus::from_tag("ERRO_VALIDACAO"), ChunkStatus::ValidationError);
    assert_eq!(ChunkStatus::from_tag("ERRO_PERSISTENCIA"), ChunkStatus::PersistenceError);
    assert_eq!(ChunkStatus::from_tag("ok"), ChunkStatus::ValidationError);
    assert_eq!(ChunkStatus::from_tag(""), ChunkStatus::ValidationError);
    assert!(ChunkStatus::from_tag("SOMETHING_ELSE").is_failure());
}
