use verman_schema::error::VermanSchemaError;
use verman_schema::models::Expectation;
use verman_schema::models::ExpectationHttpClient;
use verman_schema::verman_schema::default_name;
use verman_schema::verman_schema::State;
use verman_schema::verman_schema::VermanConfig;

#[test]
fn expectation_defaults_to_ok() {
    let e = Expectation::default();
    assert_eq!(e.status_code, 200);
    assert_eq!(e.exit_code, 0);
    assert!(e.is_success());
}

#[test]
fn expectation_success_range_is_2xx() {
    assert!(!Expectation { status_code: 199, exit_code: 0 }.is_success());
    assert!(Expectation { status_code: 200, exit_code: 0 }.is_success());
    assert!(Expectation { status_code: 299, exit_code: 0 }.is_success());
    assert!(!Expectation { status_code: 300, exit_code: 0 }.is_success());
    assert!(!Expectation { status_code: 503, exit_code: 0 }.is_success());
}

#[test]
fn http_client_expectation_defaults_to_zero() {
    let e = ExpectationHttpClient::default();
    assert_eq!(e.status_code, 0);
    assert_eq!(e.exit_code, 0);
}

#[test]
fn error_codes_follow_the_taxonomy() {
    assert_eq!(VermanSchemaError::NotFound(String::from("x")).code(), 404);
    assert_eq!(VermanSchemaError::Task(String::from("x")).code(), 594);
    assert_eq!(VermanSchemaError::TaskFailedToStart(String::from("x")).code(), 597);
    assert_eq!(VermanSchemaError::HttpError(503).code(), 598);
    assert_eq!(VermanSchemaError::NotInstalled(String::from("x")).code(), 599);
    assert_eq!(VermanSchemaError::StdIoError(String::from("x")).code(), 700);
    assert_eq!(VermanSchemaError::ExitCode(3).code(), 710);
    assert_eq!(VermanSchemaError::TomlDeError(String::from("x")).code(), 720);
    assert_eq!(VermanSchemaError::SerdeJsonError(String::from("x")).code(), 721);
    assert_eq!(VermanSchemaError::ReqwestError(String::from("x")).code(), 732);
    assert_eq!(VermanSchemaError::InvalidHeaderName(String::from("x")).code(), 733);
    assert_eq!(VermanSchemaError::InvalidHeaderValue(String::from("x")).code(), 734);
    assert_eq!(VermanSchemaError::InvalidMethod(String::from("x")).code(), 735);
    assert_eq!(VermanSchemaError::InvalidUri(String::from("x")).code(), 736);
    assert_eq!(VermanSchemaError::SubstError(String::from("x")).code(), 738);
    assert_eq!(VermanSchemaError::Utf8Error(String::from("x")).code(), 739);
    assert_eq!(VermanSchemaError::JaqCoreError(String::from("x")).code(), 740);
    assert_eq!(VermanSchemaError::JaqJsonError(String::from("x")).code(), 741);
    assert_eq!(VermanSchemaError::JaqStrError(String::from("x")).code(), 742);
}

#[test]
fn descriptor_defaults() {
    assert_eq!(VermanConfig::default().shell, "#!/jq");
    assert_eq!(default_name(), "verman-root");
    assert_eq!(State::default(), State::Untouched);
}
