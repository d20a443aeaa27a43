use forge_talos::command::{AgyCommand, Channel, CommandBuilder};
use forge_talos::config::TalosConfig;
use forge_talos::request::{Model, TalosRequest};

fn args_of(command: &AgyCommand) -> Vec<&str> {
    command.args.iter().map(|arg| arg.as_str()).collect()
}

fn plain_request() -> TalosRequest {
    TalosRequest::new("say \"hi\"; rm -rf $HOME")
}

#[test]
fn local_command_has_correct_args() {
    let config = TalosConfig::default();
    let request = TalosRequest {
        prompt: "hello world".into(),
        model: Model::GeminiFlash,
        project: None,
        skills: vec![],
        conversation_id: None,
        environment: Default::default(),
        timeout_override: None,
    };

    let builder = CommandBuilder::new(&config, &request);
    let cmd = builder.build();

    let program = cmd.program.as_str();
    assert_eq!(program, "agy");

    let args: Vec<&str> = args_of(&cmd);

    assert!(args.contains(&"--print"));
    assert!(args.contains(&"hello world"));
    assert!(args.contains(&"--model"));
    assert!(args.contains(&"--dangerously-skip-permissions"));
}

#[test]
fn local_command_is_exact() {
    let config = TalosConfig::default();
    let request = plain_request();
    let command = CommandBuilder::new(&config, &request).build();
    assert_eq!(
        args_of(&command),
        vec![
            "--print",
            "say \"hi\"; rm -rf $HOME",
            "--model",
            "gemini-flash-agent",
            "--print-timeout",
            "300s",
            "--dangerously-skip-permissions",
        ]
    );
    assert_eq!(command.stdin, Channel::Null);
    assert_eq!(command.stdout, Channel::Piped);
    assert_eq!(command.stderr, Channel::Piped);
}

#[test]
fn optional_arguments_follow_in_order() {
    let config = TalosConfig::default();
    let request = TalosRequest::new("p")
        .with_model(Model::GeminiPro)
        .with_timeout(7)
        .with_project("proj")
        .with_conversation_id("conv-1")
        .with_env("B", "2")
        .with_env("A", "x=y")
        .with_env("B", "3");
    let builder = CommandBuilder::new(&config, &request);
    assert_eq!(builder.timeout_secs(), 7);
    assert_eq!(
        builder.agy_args(),
        vec![
            "--print",
            "p",
            "--model",
            "gemini-pro-agent",
            "--print-timeout",
            "7s",
            "--dangerously-skip-permissions",
            "--project",
            "proj",
            "--conversation",
            "conv-1",
            "--env",
            "B=3",
            "--env",
            "A=x=y",
        ]
    );
}

#[test]
fn docker_mode_runs_in_the_container() {
    let mut config = TalosConfig::default();
    config.agy.mode = "docker".into();
    config.agy.container = Some("box".into());
    config.agy.binary_path = "/opt/agy".into();
    let request = plain_request();
    let builder = CommandBuilder::new(&config, &request);
    let command = builder.build();
    assert_eq!(command.program, "docker");
    assert_eq!(args_of(&command)[..3], ["exec", "box", "/opt/agy"]);
    assert_eq!(command.args[3..], builder.agy_args()[..]);
}

#[test]
fn ssh_mode_names_the_user_where_there_is_one() {
    let mut config = TalosConfig::default();
    config.agy.mode = "ssh".into();
    config.agy.host = Some("example.org".into());
    let request = plain_request();
    let command = CommandBuilder::new(&config, &request).build();
    assert_eq!(command.program, "ssh");
    assert_eq!(args_of(&command)[..2], ["example.org", "agy"]);

    config.agy.user = Some("me".into());
    let command = CommandBuilder::new(&config, &request).build();
    assert_eq!(args_of(&command)[..2], ["me@example.org", "agy"]);
}

#[test]
fn unknown_modes_run_locally() {
    let mut config = TalosConfig::default();
    config.agy.mode = "remote".into();
    let request = plain_request();
    let command = CommandBuilder::new(&config, &request).build();
    assert_eq!(command.program, "agy");
    assert_eq!(command.args[0], "--print");
}

#[test]
fn default_model_comes_from_the_config() {
    let mut config = TalosConfig::default();
    config.defaults.model = "gemini-custom".into();
    let request = TalosRequest::new("p").with_model(Model::GeminiFlashLite);
    let own = CommandBuilder::new(&config, &request).build();
    let default = CommandBuilder::new(&config, &request).with_default_model().build();
    assert_eq!(own.args[3], "gemini-flash-lite-agent");
    assert_eq!(default.args[3], "gemini-custom");
    assert_eq!(own.args[..3], default.args[..3]);
    assert_eq!(own.args[4..], default.args[4..]);
}

#[test]
fn a_changed_prompt_changes_one_argument() {
    let config = TalosConfig::default();
    let first = TalosRequest::new("one").with_env("K", "V");
    let second = TalosRequest::new("--model").with_env("K", "V");
    let a = CommandBuilder::new(&config, &first).build();
    let b = CommandBuilder::new(&config, &second).build();
    assert_eq!(a.program, b.program);
    assert_eq!(a.args.len(), b.args.len());
    assert_eq!(a.args[0], b.args[0]);
    assert_eq!(a.args[1], "one");
    assert_eq!(b.args[1], "--model");
    assert_eq!(a.args[2..], b.args[2..]);
}

#[test]
fn largest_timeout_is_written_out() {
    let config = TalosConfig::default();
    let request = TalosRequest::new("p").with_timeout(u64::MAX);
    let command = CommandBuilder::new(&config, &request).build();
    assert_eq!(command.args[5], "18446744073709551615s");
}
