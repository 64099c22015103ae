use verman_schema::command::Command;
use verman_schema::env::Env;
use verman_schema::error::VermanSchemaError;
use verman_schema::http_client::http_classify;
use verman_schema::http_client::http_prepare;
use verman_schema::json::JsonValue;
use verman_schema::models::{
    CommonContent, Expectation, HeaderScalar, HttpArgs, HttpCommandArgs, Pipeline, Task,
};
use verman_schema::task::PipelineRun;
use verman_schema::task::StepResult;

fn str_value(s: &str) -> JsonValue {
    JsonValue::Str(String::from(s))
}

fn post_args(url: &str, content: Option<JsonValue>, env: Option<Env>) -> HttpCommandArgs {
    HttpCommandArgs::new(
        HttpArgs {
            url: String::from(url),
            method: String::from("POST"),
            headers: Some(vec![(
                String::from("Content-Type"),
                HeaderScalar::Str(String::from("application/json")),
            )]),
        },
        CommonContent { content, env },
        Expectation::default(),
    )
}

#[test]
fn prepare_interpolates_method_url_and_body() {
    let mut env = Env::new();
    env.insert(String::from("HOST"), str_value("example.test"));
    env.insert(String::from("ME"), str_value("Prine"));
    let body = JsonValue::Obj(vec![(
        String::from("message"),
        str_value("greetings to ${ME}"),
    )]);
    let args = post_args("https://${HOST}/post", Some(body), Some(env));
    let plan = http_prepare(&args).unwrap();
    assert_eq!(plan.method, "POST");
    assert_eq!(plan.url, "https://example.test/post");
    assert_eq!(
        plan.body,
        Some(JsonValue::Obj(vec![(
            String::from("message"),
            str_value("greetings to Prine"),
        )]))
    );
    assert_eq!(plan.headers.len(), 1);
    assert_eq!(plan.headers[0].0, "Content-Type");
    assert_eq!(plan.headers[0].1, "application/json");
}

#[test]
fn prepare_encodes_header_scalars() {
    let args = HttpCommandArgs::new(
        HttpArgs {
            url: String::from("https://example.test/"),
            method: String::from("GET"),
            headers: Some(vec![
                (String::from("X-Empty"), HeaderScalar::Null),
                (String::from("X-Yes"), HeaderScalar::Bool(true)),
                (String::from("X-No"), HeaderScalar::Bool(false)),
                (String::from("X-N"), HeaderScalar::Int(-5)),
            ]),
        },
        CommonContent { content: None, env: None },
        Expectation::default(),
    );
    let plan = http_prepare(&args).unwrap();
    let encoded: Vec<(String, String)> = plan.headers;
    assert_eq!(encoded[0].1, "");
    assert_eq!(encoded[1].1, "1");
    assert_eq!(encoded[2].1, "0");
    assert_eq!(encoded[3].1, "-5");
}

#[test]
fn prepare_body_falls_back_to_previous_output() {
    let mut env = Env::new();
    env.insert(
        String::from("CMD_PREVIOUS_CONTENT"),
        JsonValue::Obj(vec![(String::from("message"), str_value("hi"))]),
    );
    let args = post_args("https://example.test/post", None, Some(env));
    let plan = http_prepare(&args).unwrap();
    assert_eq!(
        plan.body,
        Some(JsonValue::Obj(vec![(String::from("message"), str_value("hi"))]))
    );
}

#[test]
fn prepare_rejects_bad_method_and_url() {
    let mut args = post_args("https://example.test/", None, None);
    args.args.method = String::from("BAD METHOD");
    match http_prepare(&args) {
        Err(VermanSchemaError::InvalidMethod(_)) => {}
        other => panic!("unexpected result: {:?}", other),
    }
    let mut args2 = post_args("https://example.test/", None, None);
    args2.args.url = String::from("no spaces allowed");
    match http_prepare(&args2) {
        Err(VermanSchemaError::InvalidUri(_)) => {}
        other => panic!("unexpected result: {:?}", other),
    }
}

#[test]
fn prepare_reports_missing_variable() {
    let mut env = Env::new();
    env.insert(String::from("UNRELATED"), str_value("x"));
    let args = post_args("https://${MISSING_HOST}/post", None, Some(env));
    match http_prepare(&args) {
        Err(VermanSchemaError::SubstError(_)) => {}
        other => panic!("unexpected result: {:?}", other),
    }
}

#[test]
fn classify_rejects_unexpected_status() {
    let expectation = Expectation::default();
    match http_classify(&expectation, 503, Some(String::from("text/plain")), String::from("x")) {
        Err(VermanSchemaError::HttpError(code)) => assert_eq!(code, 503),
        other => panic!("unexpected result: {:?}", other),
    }
}

#[test]
fn classify_parses_json_content_type() {
    let expectation = Expectation::default();
    let out = http_classify(
        &expectation,
        200,
        Some(String::from("application/json")),
        String::from("{\"json\":{\"message\":\"greetings\"}}"),
    )
    .unwrap();
    let env = out.env.unwrap();
    assert_eq!(
        env.get(&String::from("CMD_PREVIOUS_TYPE")),
        Some(&str_value("JSON"))
    );
    assert_eq!(
        env.get(&String::from("CMD_PREVIOUS_CONTENT")),
        Some(&JsonValue::Obj(vec![(
            String::from("json"),
            JsonValue::Obj(vec![(String::from("message"), str_value("greetings"))]),
        )]))
    );
}

#[test]
fn classify_keeps_text_bodies_verbatim() {
    let expectation = Expectation::default();
    let out = http_classify(
        &expectation,
        200,
        Some(String::from("text/html")),
        String::from("<p>not json</p>"),
    )
    .unwrap();
    let env = out.env.unwrap();
    assert_eq!(
        env.get(&String::from("CMD_PREVIOUS_TYPE")),
        Some(&str_value("text/html"))
    );
    assert_eq!(
        env.get(&String::from("CMD_PREVIOUS_CONTENT")),
        Some(&str_value("<p>not json</p>"))
    );
}

#[test]
fn classify_unknown_type_must_parse_as_json() {
    let expectation = Expectation::default();
    match http_classify(
        &expectation,
        200,
        Some(String::from("application/octet-stream")),
        String::from("not json"),
    ) {
        Err(VermanSchemaError::SerdeJsonError(_)) => {}
        other => panic!("unexpected result: {:?}", other),
    }
}

#[test]
fn machine_pauses_for_http_and_resumes() {
    let mut command_env = Env::new();
    command_env.insert(String::from("ME"), str_value("Omega"));
    let mut pipeline = Pipeline::default();
    pipeline.name = String::from("engine");
    pipeline.tasks = Some(vec![(
        String::from("task0"),
        Task {
            commands: vec![
                Command::Echo(CommonContent {
                    content: Some(str_value("{\"message\": \"greetings to ${ME}\"}")),
                    env: Some(command_env),
                }),
                Command::HttpClient(HttpCommandArgs::new(
                    HttpArgs {
                        url: String::from("https://example.test/post"),
                        method: String::from("POST"),
                        headers: Some(vec![(
                            String::from("Content-Type"),
                            HeaderScalar::Str(String::from("application/json")),
                        )]),
                    },
                    CommonContent { content: None, env: None },
                    Expectation::default(),
                )),
            ],
            input_schema: None,
            output_schema: None,
            env: None,
        },
    )]);
    let mut run = PipelineRun::new(pipeline);
    let plan = loop {
        match run.step() {
            StepResult::Progress(_) => continue,
            StepResult::NeedHttp(plan) => break plan,
            other => panic!("unexpected step: {:?}", other),
        }
    };
    assert_eq!(plan.method, "POST");
    assert_eq!(plan.url, "https://example.test/post");
    // The echo output was cached (parsed from its JSON text) and fell
    // through to the request body.
    assert_eq!(
        plan.body,
        Some(JsonValue::Obj(vec![(
            String::from("message"),
            str_value("greetings to Omega"),
        )]))
    );
    let outcome = {
        let first = run.resume_http(
            200,
            Some(String::from("application/json")),
            String::from("{\"json\":{\"message\":\"greetings to Omega\"}}"),
        );
        match first {
            StepResult::Progress(_) => loop {
                match run.step() {
                    StepResult::Progress(_) => continue,
                    StepResult::Finished(c) => break c,
                    other => panic!("unexpected step: {:?}", other),
                }
            },
            other => panic!("unexpected resume: {:?}", other),
        }
    };
    let env = outcome.env.unwrap();
    assert_eq!(
        env.get(&String::from("CMD_PREVIOUS_TYPE")),
        Some(&str_value("JSON"))
    );
    assert_eq!(
        env.get(&String::from("TASK_PREVIOUS_NAME")),
        Some(&str_value("task0"))
    );
}

#[test]
fn machine_fails_on_status_mismatch() {
    let mut pipeline = Pipeline::default();
    pipeline.name = String::from("engine");
    pipeline.tasks = Some(vec![(
        String::from("task0"),
        Task {
            commands: vec![Command::HttpClient(HttpCommandArgs::new(
                HttpArgs {
                    url: String::from("https://example.test/post"),
                    method: String::from("POST"),
                    headers: None,
                },
                CommonContent {
                    content: Some(str_value("ping")),
                    env: None,
                },
                Expectation::default(),
            ))],
            input_schema: None,
            output_schema: None,
            env: None,
        },
    )]);
    let mut run = PipelineRun::new(pipeline);
    loop {
        match run.step() {
            StepResult::Progress(_) => continue,
            StepResult::NeedHttp(_) => break,
            other => panic!("unexpected step: {:?}", other),
        }
    }
    match run.resume_http(404, Some(String::from("text/plain")), String::from("gone")) {
        StepResult::Failed(VermanSchemaError::HttpError(code)) => assert_eq!(code, 404),
        other => panic!("unexpected resume: {:?}", other),
    }
}

#[test]
fn prepare_rejects_bad_header_name_and_value() {
    let args = HttpCommandArgs::new(
        HttpArgs {
            url: String::from("https://example.test/"),
            method: String::from("GET"),
            headers: Some(vec![(
                String::from("bad name"),
                HeaderScalar::Str(String::from("v")),
            )]),
        },
        CommonContent { content: None, env: None },
        Expectation::default(),
    );
    match http_prepare(&args) {
        Err(VermanSchemaError::InvalidHeaderName(_)) => {}
        other => panic!("unexpected result: {:?}", other),
    }
    let args2 = HttpCommandArgs::new(
        HttpArgs {
            url: String::from("https://example.test/"),
            method: String::from("GET"),
            headers: Some(vec![(
                String::from("X-Bad"),
                HeaderScalar::Str(String::from("line\nbreak")),
            )]),
        },
        CommonContent { content: None, env: None },
        Expectation::default(),
    );
    match http_prepare(&args2) {
        Err(VermanSchemaError::InvalidHeaderValue(_)) => {}
        other => panic!("unexpected result: {:?}", other),
    }
}

#[test]
fn process_without_transport_reports_not_installed() {
    let mut pipeline = Pipeline::default();
    pipeline.name = String::from("engine");
    pipeline.tasks = Some(vec![(
        String::from("task0"),
        Task {
            commands: vec![Command::HttpClient(HttpCommandArgs::new(
                HttpArgs {
                    url: String::from("https://example.test/post"),
                    method: String::from("POST"),
                    headers: None,
                },
                CommonContent {
                    content: Some(str_value("ping")),
                    env: None,
                },
                Expectation::default(),
            ))],
            input_schema: None,
            output_schema: None,
            env: None,
        },
    )]);
    match pipeline.process() {
        Err(VermanSchemaError::NotInstalled(_)) => {}
        other => panic!("unexpected result: {:?}", other),
    }
}

#[test]
fn prepare_duplicate_header_keeps_last_value() {
    let args = HttpCommandArgs::new(
        HttpArgs {
            url: String::from("https://example.test/"),
            method: String::from("GET"),
            headers: Some(vec![
                (String::from("X-A"), HeaderScalar::Str(String::from("1"))),
                (String::from("X-B"), HeaderScalar::Str(String::from("b"))),
                (String::from("X-A"), HeaderScalar::Str(String::from("2"))),
            ]),
        },
        CommonContent { content: None, env: None },
        Expectation::default(),
    );
    let plan = http_prepare(&args).unwrap();
    assert_eq!(plan.headers.len(), 2);
    assert_eq!(plan.headers[0], (String::from("X-A"), String::from("2")));
    assert_eq!(plan.headers[1], (String::from("X-B"), String::from("b")));
}
