use mvdup::error::DataStoreError;
use mvdup::store::{init_passphrase, try_open_step, OpenPhase, OpenStep};

#[test]
fn missing_store_is_not_found() {
    assert!(matches!(
        try_open_step(OpenPhase::Locate, false),
        OpenStep::Failed(DataStoreError::NotFound(_))
    ));
    assert_eq!(try_open_step(OpenPhase::Locate, true), OpenStep::Next(OpenPhase::Plain));
}

#[test]
fn plain_failure_retries_with_passphrase_once() {
    assert_eq!(try_open_step(OpenPhase::Plain, true), OpenStep::Opened);
    assert_eq!(try_open_step(OpenPhase::Plain, false), OpenStep::Next(OpenPhase::Keyed));
    assert_eq!(try_open_step(OpenPhase::Keyed, true), OpenStep::Opened);
    assert_eq!(
        try_open_step(OpenPhase::Keyed, false),
        OpenStep::Failed(DataStoreError::Authentication)
    );
}

#[test]
fn init_checks_existing_store_and_passphrase_entries() {
    assert_eq!(init_passphrase(false, None), Ok(None));
    assert_eq!(
        init_passphrase(false, Some(("s3cret".to_string(), "s3cret".to_string()))),
        Ok(Some("s3cret".to_string()))
    );
    assert_eq!(
        init_passphrase(false, Some(("s3cret".to_string(), "secret".to_string()))),
        Err(DataStoreError::PassphraseMismatch)
    );
    assert!(matches!(init_passphrase(true, None), Err(DataStoreError::Conflict(_))));
}
