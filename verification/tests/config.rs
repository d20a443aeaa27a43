use forge_talos::config::{
    AgyFields, ConfigFile, DefaultsFields, Discovery, DiscoveryAction, FileRead, LimitsFields,
    TalosConfig,
};
use forge_talos::error::TalosError;
use forge_talos::paths::FilePath;

fn empty_file() -> ConfigFile {
    ConfigFile { agy: None, defaults: None, limits: None }
}

fn home(text: &str) -> Option<FilePath> {
    Some(FilePath::from_text(text))
}

fn system_home() -> Option<FilePath> {
    dirs::home_dir().map(|dir| FilePath::from_bytes(dir.into_os_string().into_encoded_bytes()))
}

fn texts(paths: Vec<FilePath>) -> Vec<String> {
    paths.into_iter().map(text).collect()
}

fn text(path: FilePath) -> String {
    String::from_utf8(path.into_slashed()).unwrap()
}

fn config_error<T: std::fmt::Debug>(result: Result<T, TalosError>) -> String {
    match result {
        Err(TalosError::ConfigError(what)) => what,
        other => panic!("{:?}", other),
    }
}

#[test]
fn defaults_are_as_documented() {
    let config = TalosConfig::default();
    assert_eq!(config.agy.mode, "local");
    assert_eq!(config.agy.binary_path, "agy");
    assert_eq!(config.agy.container, None);
    assert_eq!(config.agy.host, None);
    assert_eq!(config.agy.user, None);
    assert_eq!(config.defaults.model, "gemini-flash-agent");
    assert_eq!(config.defaults.timeout_secs, 300);
    assert_eq!(config.defaults.skills_dir, None);
    assert_eq!(config.defaults.data_dir, None);
    assert_eq!(config.limits.max_concurrent, 4);
    assert_eq!(config.limits.max_prompt_bytes, 1024 * 1024);
    assert!(config.validate().is_ok());
}

#[test]
fn docker_needs_a_container() {
    let mut config = TalosConfig::default();
    config.agy.mode = "docker".into();
    assert_eq!(
        config_error(config.validate()),
        "agy.container is required when mode = \"docker\""
    );
    config.agy.container = Some("box".into());
    assert!(config.validate().is_ok());
}

#[test]
fn ssh_needs_a_host() {
    let mut config = TalosConfig::default();
    config.agy.mode = "ssh".into();
    assert_eq!(config_error(config.validate()), "agy.host is required when mode = \"ssh\"");
    config.agy.host = Some("h".into());
    assert!(config.validate().is_ok());
}

#[test]
fn unknown_modes_are_refused() {
    let mut config = TalosConfig::default();
    config.agy.mode = "Local".into();
    assert_eq!(
        config_error(config.validate()),
        "unknown agy.mode: \"Local\" (expected \"local\", \"docker\", or \"ssh\")"
    );
}

#[test]
fn an_empty_file_is_the_default() {
    let config = TalosConfig::load("f", FileRead::Parsed(empty_file())).unwrap();
    assert_eq!(format!("{:?}", config), format!("{:?}", TalosConfig::default()));
}

#[test]
fn empty_sections_are_the_default() {
    let file = ConfigFile {
        agy: Some(AgyFields {
            mode: None,
            container: None,
            host: None,
            user: None,
            binary_path: None,
        }),
        defaults: Some(DefaultsFields {
            model: None,
            timeout_secs: None,
            skills_dir: None,
            data_dir: None,
        }),
        limits: Some(LimitsFields { max_concurrent: None, max_prompt_bytes: None }),
    };
    assert_eq!(format!("{:?}", file.fill()), format!("{:?}", TalosConfig::default()));
}

#[test]
fn given_fields_are_kept() {
    let file = ConfigFile {
        agy: Some(AgyFields {
            mode: Some("ssh".into()),
            container: None,
            host: Some("h".into()),
            user: Some("u".into()),
            binary_path: Some("/b".into()),
        }),
        defaults: Some(DefaultsFields {
            model: Some("m".into()),
            timeout_secs: Some(5),
            skills_dir: Some("s".into()),
            data_dir: Some("d".into()),
        }),
        limits: Some(LimitsFields { max_concurrent: Some(1), max_prompt_bytes: Some(2) }),
    };
    let config = TalosConfig::load("f", FileRead::Parsed(file)).unwrap();
    assert_eq!(config.agy.mode, "ssh");
    assert_eq!(config.agy.host.as_deref(), Some("h"));
    assert_eq!(config.agy.user.as_deref(), Some("u"));
    assert_eq!(config.agy.binary_path, "/b");
    assert_eq!(config.defaults.model, "m");
    assert_eq!(config.defaults.timeout_secs, 5);
    assert_eq!(config.defaults.skills_dir.as_deref(), Some("s"));
    assert_eq!(text(config.data_dir()), "d");
    assert_eq!(config.limits.max_concurrent, 1);
    assert_eq!(config.limits.max_prompt_bytes, 2);
}

#[test]
fn loading_reports_unreadable_files() {
    let cause = std::io::Error::new(std::io::ErrorKind::NotFound, "gone");
    let what = config_error(TalosConfig::load("/x/talos.toml", FileRead::Unreadable(cause)));
    assert_eq!(what, "failed to read /x/talos.toml: gone");
}

#[test]
fn loading_reports_malformed_files() {
    let cause = toml::from_str::<toml::Value>("= 1").unwrap_err();
    let shown = cause.to_string();
    let what = config_error(TalosConfig::load("f", FileRead::Malformed(cause)));
    assert_eq!(what, shown);
}

#[test]
fn loading_validates() {
    let mut file = empty_file();
    file.agy = Some(AgyFields {
        mode: Some("docker".into()),
        container: None,
        host: None,
        user: None,
        binary_path: None,
    });
    let what = config_error(TalosConfig::load("f", FileRead::Parsed(file)));
    assert_eq!(what, "agy.container is required when mode = \"docker\"");
}

#[test]
fn discovery_looks_in_order() {
    assert_eq!(
        texts(TalosConfig::discovery_paths_from(&home("/home/u"))),
        vec!["talos.toml", "/home/u/.config/talos/talos.toml", "/etc/talos/talos.toml"]
    );
    assert_eq!(
        texts(TalosConfig::discovery_paths_from(&None)),
        vec!["talos.toml", "/etc/talos/talos.toml"]
    );
}

#[test]
fn discovery_paths_follow_the_home_directory() {
    let home = system_home();
    assert_eq!(
        texts(TalosConfig::discovery_paths()),
        texts(TalosConfig::discovery_paths_from(&home))
    );
}

#[test]
fn discovery_loads_the_first_that_exists() {
    let mut search = Discovery::new(vec![
        FilePath::from_text("a"),
        FilePath::from_text("b"),
        FilePath::from_text("c"),
    ]);
    assert!(matches!(search.next_action(), DiscoveryAction::Probe(p) if text(p.clone()) == "a"));
    assert!(matches!(search.observe(false), DiscoveryAction::Probe(p) if text(p.clone()) == "b"));
    assert!(matches!(search.observe(true), DiscoveryAction::Load(p) if text(p.clone()) == "b"));
}

#[test]
fn discovery_falls_back_to_defaults() {
    let mut search = Discovery::new(vec![FilePath::from_text("a")]);
    assert!(matches!(search.observe(false), DiscoveryAction::UseDefaults));
    assert!(matches!(search.next_action(), DiscoveryAction::UseDefaults));
}

#[test]
fn data_dir_follows_the_home_directory() {
    let config = TalosConfig::default();
    assert_eq!(
        text(config.data_dir_from(&home("/home/u/"))),
        "/home/u/.gemini/antigravity-cli"
    );
    assert_eq!(text(config.data_dir_from(&None)), "/tmp/.gemini/antigravity-cli");
    let home = system_home();
    assert_eq!(text(config.data_dir()), text(config.data_dir_from(&home)));
}

#[test]
fn paths_join_as_the_system_does() {
    let cases =
        [("a", "b"), ("a/", "b"), ("", "b"), ("a", "/b"), ("a", ""), ("/", "b"), ("\u{e9}", "x/y")];
    for (base, part) in cases {
        let expected = std::path::Path::new(base).join(part);
        assert_eq!(text(FilePath::from_text(base).join(part)), expected.to_str().unwrap());
    }
}

#[test]
fn paths_name_what_is_joined() {
    let (base, parts) = TalosConfig::default().data_dir_from(&home("/home/u")).into_parts();
    assert_eq!(base, b"/home/u");
    assert_eq!(parts, vec![".gemini/antigravity-cli"]);
}

#[test]
fn paths_need_not_be_text() {
    let home = Some(FilePath::from_bytes(vec![b'/', 0xff, 0xfe]));
    let mut expected = vec![b'/', 0xff, 0xfe];
    expected.extend_from_slice(b"/.gemini/antigravity-cli");
    assert_eq!(TalosConfig::default().data_dir_from(&home).into_slashed(), expected);
}

#[test]
fn validated_configurations_can_be_launched() {
    let mut config = TalosConfig::default();
    assert!(config.is_reachable());
    config.agy.mode = "docker".into();
    assert!(!config.is_reachable());
    config.agy.container = Some("box".into());
    assert!(config.is_reachable());
    config.agy.mode = "ssh".into();
    assert!(!config.is_reachable());
    config.agy.host = Some("h".into());
    assert!(config.is_reachable());
    config.agy.mode = "other".into();
    assert!(config.is_reachable());
}
