use verman_schema::command::Command;
use verman_schema::env::Env;
use verman_schema::error::VermanSchemaError;
use verman_schema::json::JsonValue;
use verman_schema::models::CommonContent;
use verman_schema::models::Pipeline;
use verman_schema::models::Task;

fn str_value(s: &str) -> JsonValue {
    JsonValue::Str(String::from(s))
}

fn pipeline_named(name: &str) -> Pipeline {
    let mut p = Pipeline::default();
    p.name = String::from(name);
    p
}

fn plain_task(commands: Vec<Command>) -> Task {
    Task {
        commands,
        input_schema: None,
        output_schema: None,
        env: None,
    }
}

#[test]
fn empty_pipeline_test() {
    let pipeline = pipeline_named("engine");
    let common = pipeline.process().unwrap();
    assert_eq!(common, CommonContent { content: None, env: None });
}

#[test]
fn empty_echo_task_empty_commands_pipeline_test() {
    let mut pipeline = pipeline_named("engine");
    pipeline.tasks = Some(vec![(String::from("task0"), plain_task(vec![]))]);
    let common = pipeline.process();
    match common {
        Err(VermanSchemaError::NotFound(m)) => assert_eq!(m, "`Command`s"),
        other => panic!("unexpected result: {:?}", other),
    }
}

#[test]
fn one_echo_task_pipeline_test() {
    let mut pipeline = pipeline_named("engine");
    let mut command_env = Env::new();
    command_env.insert(String::from("FOO"), str_value("bar"));
    pipeline.tasks = Some(vec![(
        String::from("task0"),
        plain_task(vec![Command::Echo(CommonContent {
            content: Some(str_value("FOO is set to ${FOO}")),
            env: Some(command_env),
        })]),
    )]);
    let common = pipeline.process().unwrap();
    let env = common.env.unwrap();
    assert_eq!(
        env.get(&String::from("TASK_PREVIOUS_NAME")),
        Some(&str_value("task0"))
    );
    assert_eq!(
        env.get(&String::from("CMD_PREVIOUS_CONTENT")),
        Some(&str_value("FOO is set to bar"))
    );
}

#[test]
fn pipeline_env_reaches_first_command() {
    let mut pipeline = pipeline_named("engine");
    let mut root_env = Env::new();
    root_env.insert(String::from("GREETING"), str_value("salve"));
    pipeline.env = Some(root_env);
    pipeline.tasks = Some(vec![(
        String::from("task0"),
        plain_task(vec![Command::Echo(CommonContent {
            content: Some(str_value("${GREETING}!")),
            env: None,
        })]),
    )]);
    let common = pipeline.process().unwrap();
    let env = common.env.unwrap();
    assert_eq!(
        env.get(&String::from("CMD_PREVIOUS_CONTENT")),
        Some(&str_value("salve!"))
    );
}

#[test]
fn set_env_then_echo_then_query_chain() {
    let mut set_env_env = Env::new();
    set_env_env.insert(String::from("ME"), str_value("Omega"));
    let mut pipeline = pipeline_named("engine");
    pipeline.tasks = Some(vec![(
        String::from("task0"),
        plain_task(vec![
            Command::SetEnv(CommonContent {
                content: None,
                env: Some(set_env_env),
            }),
            Command::Echo(CommonContent {
                content: Some(str_value("{\"message\": \"greetings to ${ME}\"}")),
                env: None,
            }),
            Command::Jaq(CommonContent {
                content: Some(str_value(".message")),
                env: None,
            }),
        ]),
    )]);
    let common = pipeline.process().unwrap();
    let env = common.env.unwrap();
    assert_eq!(
        env.get(&String::from("TASK_PREVIOUS_NAME")),
        Some(&str_value("task0"))
    );
    assert_eq!(
        env.get(&String::from("CMD_PREVIOUS_CONTENT")),
        Some(&str_value("\"greetings to Omega\""))
    );
}

#[test]
fn second_task_reads_first_task_output() {
    let mut pipeline = pipeline_named("engine");
    pipeline.tasks = Some(vec![
        (
            String::from("produce"),
            plain_task(vec![Command::Echo(CommonContent {
                content: Some(str_value("made by produce")),
                env: None,
            })]),
        ),
        (
            String::from("consume"),
            plain_task(vec![Command::Echo(CommonContent {
                content: None,
                env: None,
            })]),
        ),
    ]);
    let common = pipeline.process().unwrap();
    let env = common.env.unwrap();
    assert_eq!(
        env.get(&String::from("CMD_PREVIOUS_CONTENT")),
        Some(&str_value("made by produce"))
    );
    assert_eq!(
        env.get(&String::from("engine__produce_TASK_CONTENT")),
        Some(&str_value("made by produce"))
    );
    assert_eq!(
        env.get(&String::from("TASK_PREVIOUS_NAME")),
        Some(&str_value("consume"))
    );
}

#[test]
fn process_tasks_serially_with_no_tasks_gives_empty_env() {
    let common =
        verman_schema::pipeline::process_tasks_serially(String::from("engine"), vec![]).unwrap();
    assert_eq!(common.content, None);
    let env = common.env.unwrap();
    assert_eq!(env.len(), 0);
}

#[test]
fn scoped_mirror_names_an_earlier_command_output() {
    let mut pipeline = pipeline_named("engine");
    pipeline.tasks = Some(vec![(
        String::from("task0"),
        plain_task(vec![
            Command::Echo(CommonContent {
                content: Some(str_value("alpha")),
                env: None,
            }),
            Command::Echo(CommonContent {
                content: Some(str_value("${engine__task0_CMD_CONTENT}-beta")),
                env: None,
            }),
        ]),
    )]);
    let common = pipeline.process().unwrap();
    let env = common.env.unwrap();
    assert_eq!(
        env.get(&String::from("CMD_PREVIOUS_CONTENT")),
        Some(&str_value("alpha-beta"))
    );
}
