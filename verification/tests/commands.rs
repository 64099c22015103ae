use verman_schema::command::echo;
use verman_schema::command::CommandKey;
use verman_schema::task::TaskKey;
use verman_schema::command::interpolate;
use verman_schema::command::set_env;
use verman_schema::env::Env;
use verman_schema::error::VermanSchemaError;
use verman_schema::json::JsonValue;
use verman_schema::models::CommonContent;

fn str_value(s: &str) -> JsonValue {
    JsonValue::Str(String::from(s))
}

#[test]
fn echo_simple_test() {
    let content_val = Some(str_value("Hello"));
    let b = echo(&CommonContent {
        content: Some(str_value("Hello")),
        env: None,
    })
    .unwrap();
    assert_eq!(b.content, content_val);
}

#[test]
fn echo_env_test() {
    let mut e = Env::new();
    e.insert(String::from("VAR"), str_value("${weird}"));
    let b = echo(&CommonContent {
        content: Some(str_value("Hello ${VAR} var")),
        env: Some(e),
    })
    .unwrap();
    assert_eq!(b.content, Some(str_value("Hello ${weird} var")));
}

#[test]
fn env_simple_test() {
    let content_val = Some(str_value("Hello"));
    let b = verman_schema::command::env(&CommonContent {
        content: Some(str_value("Hello")),
        env: None,
    })
    .unwrap();
    assert_eq!(b.content, content_val);
}

#[test]
fn interpolate_test() {
    let mut e = Env::new();
    e.insert(String::from("A"), str_value("$C"));
    e.insert(String::from("B"), str_value("$D"));
    e.insert(String::from("C"), str_value("$B"));
    e.insert(String::from("D"), str_value("goal"));
    let common_output = interpolate(&CommonContent {
        content: Some(str_value("$A")),
        env: Some(e),
    })
    .unwrap();
    assert_eq!(common_output.content, Some(str_value("goal")));
}

#[test]
fn interpolate_json_content_test() {
    let mut e = Env::new();
    e.insert(String::from("ME"), str_value("Omega"));
    let body = JsonValue::Obj(vec![(
        String::from("message"),
        str_value("greetings to ${ME}"),
    )]);
    let out = interpolate(&CommonContent {
        content: Some(body),
        env: Some(e),
    })
    .unwrap();
    assert_eq!(
        out.content,
        Some(JsonValue::Obj(vec![(
            String::from("message"),
            str_value("greetings to Omega"),
        )]))
    );
}

#[test]
fn set_env_test() {
    let mut e = Env::new();
    e.insert(String::from("ENV WAS SET"), str_value("indeed"));
    let common_input = CommonContent {
        content: None,
        env: Some(e),
    };
    let common_output = set_env(&common_input).unwrap();
    assert_eq!(common_output, common_input);
}

#[test]
fn echo_missing_input_yields_none() {
    let b = echo(&CommonContent {
        content: None,
        env: None,
    })
    .unwrap();
    assert_eq!(b.content, None);
}

#[test]
fn echo_dash_reads_previous_output() {
    let mut e = Env::new();
    e.insert(
        String::from("CMD_PREVIOUS_CONTENT"),
        str_value("from before"),
    );
    let b = echo(&CommonContent {
        content: Some(str_value("-")),
        env: Some(e),
    })
    .unwrap();
    assert_eq!(b.content, Some(str_value("from before")));
}

#[test]
fn env_dump_lines_are_ordered() {
    let mut e = Env::new();
    e.insert(String::from("A"), JsonValue::Int(1));
    e.insert(String::from("B"), str_value("x"));
    let lines = verman_schema::command::env_dump_lines(&e);
    assert_eq!(lines.len(), 2);
    assert_eq!(lines[0], "A=1");
    assert_eq!(lines[1], "B=\"x\"");
}

#[test]
fn jaq_without_input_is_not_found() {
    let e = Env::new();
    let r = verman_schema::jaq::jaq(&CommonContent {
        content: Some(str_value(".")),
        env: Some(e),
    });
    match r {
        Err(VermanSchemaError::NotFound(m)) => assert_eq!(m, "Any content"),
        other => panic!("unexpected result: {:?}", other),
    }
}

#[test]
fn test_jaq() {
    let mut e = Env::new();
    e.insert(
        String::from("CMD_PREVIOUS_CONTENT"),
        JsonValue::Arr(vec![
            JsonValue::Int(1),
            JsonValue::Obj(vec![(String::from("stuff"), JsonValue::Bool(true))]),
        ]),
    );
    let input_common = CommonContent {
        content: Some(str_value(".[1]")),
        env: Some(e),
    };
    let result_common = verman_schema::jaq::jaq(&input_common).unwrap();
    assert_eq!(result_common.content, Some(str_value("{\"stuff\":true}")));
}

#[test]
fn test_jaq_runner0() {
    let mock_filters: [(&str, &str); 3] = [(".[0]", "null"), (".[1]", "[true,null]"), (".[2]", "5")];
    for (filter, expect) in mock_filters.iter() {
        let mut e = Env::new();
        e.insert(
            String::from("CMD_PREVIOUS_CONTENT"),
            JsonValue::Arr(vec![
                JsonValue::Null,
                JsonValue::Arr(vec![JsonValue::Bool(true), JsonValue::Null]),
                JsonValue::Int(5),
            ]),
        );
        let out = verman_schema::jaq::jaq(&CommonContent {
            content: Some(str_value(filter)),
            env: Some(e),
        })
        .unwrap();
        assert_eq!(out.content, Some(str_value(expect)));
    }
}

#[test]
fn jaq_bad_filter_fails() {
    let mut e = Env::new();
    e.insert(String::from("CMD_PREVIOUS_CONTENT"), JsonValue::Null);
    let r = verman_schema::jaq::jaq(&CommonContent {
        content: Some(str_value("((")),
        env: Some(e),
    });
    match r {
        Err(VermanSchemaError::JaqStrError(_)) => {}
        other => panic!("unexpected result: {:?}", other),
    }
}

#[test]
fn command_process_merges_the_argument_env() {
    let mut shared = Env::new();
    shared.insert(String::from("A"), JsonValue::Int(1));
    let mut cmd_env = Env::new();
    cmd_env.insert(String::from("B"), str_value("x"));
    let cmd = verman_schema::command::Command::SetEnv(CommonContent {
        content: None,
        env: Some(cmd_env),
    });
    let out = cmd.process(&mut shared).unwrap();
    assert_eq!(shared.get(&String::from("A")), Some(&JsonValue::Int(1)));
    assert_eq!(shared.get(&String::from("B")), Some(&str_value("x")));
    assert_eq!(out.content, None);
    let out_env = out.env.unwrap();
    assert_eq!(out_env.get(&String::from("B")), Some(&str_value("x")));
}

#[test]
fn well_known_keys_have_their_names() {
    assert_eq!(CommandKey::CurrentContent.key_string(), "CMD_CURRENT_CONTENT");
    assert_eq!(CommandKey::PreviousContent.key_string(), "CMD_PREVIOUS_CONTENT");
    assert_eq!(CommandKey::PreviousType.key_string(), "CMD_PREVIOUS_TYPE");
    assert_eq!(TaskKey::CurrentName.key_string(), "TASK_CURRENT_NAME");
    assert_eq!(TaskKey::PreviousName.key_string(), "TASK_PREVIOUS_NAME");
}

#[test]
fn interpolate_missing_name_fails() {
    let mut e = Env::new();
    e.insert(String::from("PRESENT"), str_value("x"));
    let r = interpolate(&CommonContent {
        content: Some(str_value("$ABSENT")),
        env: Some(e),
    });
    match r {
        Err(VermanSchemaError::SubstError(_)) => {}
        other => panic!("unexpected result: {:?}", other),
    }
}

#[test]
fn braced_default_substitutes_when_name_is_unbound() {
    let mut e = Env::new();
    e.insert(String::from("WHO"), str_value("Omega"));
    let b = echo(&CommonContent {
        content: Some(str_value("hi ${ABSENT:stranger}, hi ${WHO:nobody}")),
        env: Some(e),
    })
    .unwrap();
    assert_eq!(b.content, Some(str_value("hi stranger, hi Omega")));
}

#[test]
fn braced_default_is_itself_a_template() {
    let mut e = Env::new();
    e.insert(String::from("FALLBACK"), str_value("plan-b"));
    let b = echo(&CommonContent {
        content: Some(str_value("use ${CHOICE:${FALLBACK:none}}")),
        env: Some(e),
    })
    .unwrap();
    assert_eq!(b.content, Some(str_value("use plan-b")));
}

#[test]
fn braced_default_may_be_empty() {
    let mut e = Env::new();
    e.insert(String::from("X"), str_value("x"));
    let b = echo(&CommonContent {
        content: Some(str_value("<${ABSENT:}>")),
        env: Some(e),
    })
    .unwrap();
    assert_eq!(b.content, Some(str_value("<>")));
}
