use xml_service::failure::{Failure, Reaction};

#[test]
fn each_failure_has_its_reaction() {
    assert_eq!(Failure::ConnectionRefused.react(), Reaction::RetryWithBackoff);
    assert_eq!(Failure::ConnectionExhausted.react(), Reaction::StopWorker);
    assert_eq!(Failure::ConnectionLost.react(), Reaction::Reacquire);
    assert_eq!(Failure::Undecodable.react(), Reaction::DropMessage);
    assert_eq!(Failure::InvalidDocument.react(), Reaction::ForwardTagged);
    assert_eq!(Failure::InsertFailed.react(), Reaction::DowngradeStatus);
    assert_eq!(Failure::CallbackFailed.react(), Reaction::LogOnly);
    assert_eq!(Failure::Configuration.react(), Reaction::StopWorker);
}

#[test]
fn only_exhaustion_and_configuration_are_fatal() {
    let all = [
        Failure::ConnectionRefused,
        Failure::ConnectionExhausted,
        Failure::ConnectionLost,
        Failure::Undecodable,
        Failure::InvalidDocument,
        Failure::InsertFailed,
        Failure::CallbackFailed,
        Failure::Configuration,
    ];
    let fatal: Vec<Failure> = all.iter().copied().filter(|f| f.is_fatal()).collect();
    assert_eq!(fatal, vec![Failure::ConnectionExhausted, Failure::Configuration]);
}
