//! Configuration for the Talos crate.
//!
//! [`TalosConfig`] is loaded from a `talos.toml` file and controls how
//! `agy` is invoked, which model to use, timeouts, and concurrency limits.

use vstd::prelude::*;
use vstd::string::*;

use crate::error::TalosError;
use crate::paths;
use crate::paths::{FilePath, PathView};
use crate::text;

verus! {

// ── Top-level config ─────────────────────────────────────────────────

/// Root configuration structure parsed from `talos.toml`.
#[derive(Debug, Clone)]
pub struct TalosConfig {
    /// How and where to run `agy`.
    pub agy: AgyConfig,
    /// Default values applied to every invocation unless overridden.
    pub defaults: DefaultsConfig,
    /// Resource limits.
    pub limits: LimitsConfig,
}

/// What a [`TalosConfig`] says.
pub struct ConfigView {
    pub agy: AgyView,
    pub defaults: DefaultsView,
    pub limits: LimitsConfig,
}

impl View for TalosConfig {
    type V = ConfigView;

    open spec fn view(&self) -> ConfigView {
        ConfigView { agy: self.agy@, defaults: self.defaults@, limits: self.limits }
    }
}

// ── Agy execution mode ──────────────────────────────────────────────

/// Controls how the `agy` binary is reached.
#[derive(Debug, Clone)]
pub struct AgyConfig {
    /// Execution mode: `"local"`, `"docker"`, or `"ssh"`.
    pub mode: String,
    /// Docker container name/ID (required when `mode = "docker"`).
    pub container: Option<String>,
    /// SSH hostname (required when `mode = "ssh"`).
    pub host: Option<String>,
    /// SSH user (defaults to current user).
    pub user: Option<String>,
    /// Override path to the `agy` binary. Defaults to `"agy"` (i.e. $PATH lookup).
    pub binary_path: String,
}

/// What an [`AgyConfig`] says.
pub struct AgyView {
    pub mode: Seq<char>,
    pub container: Option<Seq<char>>,
    pub host: Option<Seq<char>>,
    pub user: Option<Seq<char>>,
    pub binary_path: Seq<char>,
}

impl View for AgyConfig {
    type V = AgyView;

    open spec fn view(&self) -> AgyView {
        AgyView {
            mode: self.mode@,
            container: text::option_text(self.container),
            host: text::option_text(self.host),
            user: text::option_text(self.user),
            binary_path: self.binary_path@,
        }
    }
}

/// The section that runs `agy` from `$PATH` on this machine.
pub open spec fn default_agy() -> AgyView {
    AgyView { mode: "local"@, container: None, host: None, user: None, binary_path: "agy"@ }
}

impl AgyConfig {
    /// The execution mode where none is given.
    pub fn default_mode() -> (mode: String)
        ensures
            mode@ == default_agy().mode,
    {
        "local".to_owned()
    }

    /// The binary where none is given.
    pub fn default_binary_path() -> (path: String)
        ensures
            path@ == default_agy().binary_path,
    {
        "agy".to_owned()
    }
}

impl Default for AgyConfig {
    fn default() -> (config: Self)
        ensures
            config@ == default_agy(),
    {
        Self {
            mode: Self::default_mode(),
            container: None,
            host: None,
            user: None,
            binary_path: Self::default_binary_path(),
        }
    }
}

// ── Defaults ────────────────────────────────────────────────────────

/// Default values applied to every request unless overridden per-request.
#[derive(Debug, Clone)]
pub struct DefaultsConfig {
    /// Model name passed to `--model`. Defaults to `"gemini-flash-agent"`.
    pub model: String,
    /// Timeout for `--print-timeout`, in seconds. Defaults to 300 (5 min).
    pub timeout_secs: u64,
    /// Directory containing skill TOML files.
    pub skills_dir: Option<String>,
    /// Override for the agy data directory (`~/.gemini/antigravity-cli`).
    pub data_dir: Option<String>,
}

/// What a [`DefaultsConfig`] says.
pub struct DefaultsView {
    pub model: Seq<char>,
    pub timeout_secs: u64,
    pub skills_dir: Option<Seq<char>>,
    pub data_dir: Option<Seq<char>>,
}

impl View for DefaultsConfig {
    type V = DefaultsView;

    open spec fn view(&self) -> DefaultsView {
        DefaultsView {
            model: self.model@,
            timeout_secs: self.timeout_secs,
            skills_dir: text::option_text(self.skills_dir),
            data_dir: text::option_text(self.data_dir),
        }
    }
}

/// The section with five minutes for an invocation.
pub open spec fn default_defaults() -> DefaultsView {
    DefaultsView {
        model: "gemini-flash-agent"@,
        timeout_secs: 300,
        skills_dir: None,
        data_dir: None,
    }
}

impl DefaultsConfig {
    /// The model name where none is given.
    pub fn default_model() -> (model: String)
        ensures
            model@ == default_defaults().model,
    {
        "gemini-flash-agent".to_owned()
    }

    /// The timeout in seconds where none is given.
    pub fn default_timeout_secs() -> (seconds: u64)
        ensures
            seconds == default_defaults().timeout_secs,
    {
        300
    }
}

impl Default for DefaultsConfig {
    fn default() -> (config: Self)
        ensures
            config@ == default_defaults(),
    {
        Self {
            model: Self::default_model(),
            timeout_secs: Self::default_timeout_secs(),
            skills_dir: None,
            data_dir: None,
        }
    }
}

// ── Limits ──────────────────────────────────────────────────────────

/// Resource limits to prevent runaway usage.
#[derive(Debug, Clone)]
pub struct LimitsConfig {
    /// Maximum number of concurrent `agy` invocations. Defaults to 4.
    pub max_concurrent: usize,
    /// Maximum prompt size in bytes. Defaults to 1 MiB.
    pub max_prompt_bytes: usize,
}

/// The section with room for four invocations and prompts of a mebibyte.
pub open spec fn default_limits() -> LimitsConfig {
    LimitsConfig { max_concurrent: 4, max_prompt_bytes: 1_048_576 }
}

impl LimitsConfig {
    /// The number of concurrent invocations where none is given.
    pub fn default_max_concurrent() -> (count: usize)
        ensures
            count == default_limits().max_concurrent,
    {
        4
    }

    /// The prompt size in bytes where none is given.
    pub fn default_max_prompt_bytes() -> (bytes: usize)
        ensures
            bytes == default_limits().max_prompt_bytes,
    {
        1_048_576
    }
}

impl Default for LimitsConfig {
    fn default() -> (config: Self)
        ensures
            config == default_limits(),
    {
        Self {
            max_concurrent: Self::default_max_concurrent(),
            max_prompt_bytes: Self::default_max_prompt_bytes(),
        }
    }
}

/// The configuration that is used where no file is found.
pub open spec fn default_config() -> ConfigView {
    ConfigView { agy: default_agy(), defaults: default_defaults(), limits: default_limits() }
}

impl Default for TalosConfig {
    fn default() -> (config: Self)
        ensures
            config@ == default_config(),
    {
        Self {
            agy: AgyConfig::default(),
            defaults: DefaultsConfig::default(),
            limits: LimitsConfig::default(),
        }
    }
}

// ── Validation ──────────────────────────────────────────────────────

impl ConfigView {
    /// What is wrong with the configuration, where something is.
    pub open spec fn fault(self) -> Option<Seq<char>> {
        if self.agy.mode == "local"@ {
            None
        } else if self.agy.mode == "docker"@ {
            if self.agy.container is None {
                Some("agy.container is required when mode = \"docker\""@)
            } else {
                None
            }
        } else if self.agy.mode == "ssh"@ {
            if self.agy.host is None {
                Some("agy.host is required when mode = \"ssh\""@)
            } else {
                None
            }
        } else {
            Some(
                "unknown agy.mode: \""@ + self.agy.mode
                    + "\" (expected \"local\", \"docker\", or \"ssh\")"@,
            )
        }
    }

    /// Whether the fields that the execution mode needs are there.
    pub open spec fn reachable(self) -> bool {
        &&& self.agy.mode == "docker"@ ==> self.agy.container is Some
        &&& self.agy.mode == "ssh"@ ==> self.agy.host is Some
    }
}

/// A configuration that passes validation has what its execution mode needs.
pub proof fn law_validated_is_reachable(config: ConfigView)
    requires
        config.fault() is None,
    ensures
        config.reachable(),
{
    reveal_strlit("local");
    reveal_strlit("docker");
    reveal_strlit("ssh");
    assert("local"@.len() == 5 && "docker"@.len() == 6 && "ssh"@.len() == 3);
}

/// The default configuration passes validation.
pub proof fn law_default_is_valid()
    ensures
        default_config().fault() is None,
{
}

/// A configuration that passes validation names one of the three modes.
pub proof fn law_validated_mode_is_known(config: ConfigView)
    requires
        config.fault() is None,
    ensures
        config.agy.mode == "local"@ || config.agy.mode == "docker"@ || config.agy.mode == "ssh"@,
{
}

impl TalosConfig {
    /// Validate that mode-specific required fields are present.
    pub fn validate(&self) -> (checked: Result<(), TalosError>)
        ensures
            match checked {
                Ok(_) => self@.fault() is None,
                Err(error) => error matches TalosError::ConfigError(what) && self@.fault() == Some(
                    what@,
                ),
            },
    {
        let mode = self.agy.mode.as_str();
        if text::same_text(mode, "local") {
            Ok(())
        } else if text::same_text(mode, "docker") {
            if self.agy.container.is_none() {
                return Err(
                    TalosError::ConfigError(
                        "agy.container is required when mode = \"docker\"".to_owned(),
                    ),
                );
            }
            Ok(())
        } else if text::same_text(mode, "ssh") {
            if self.agy.host.is_none() {
                return Err(
                    TalosError::ConfigError(
                        "agy.host is required when mode = \"ssh\"".to_owned(),
                    ),
                );
            }
            Ok(())
        } else {
            Err(
                TalosError::ConfigError(
                    "unknown agy.mode: \"".to_owned().concat(mode).concat(
                        "\" (expected \"local\", \"docker\", or \"ssh\")",
                    ),
                ),
            )
        }
    }
}

impl TalosConfig {
    /// Whether the fields that the execution mode needs are there, as they
    /// are in every configuration that passes validation.
    pub fn is_reachable(&self) -> (yes: bool)
        ensures
            yes == self@.reachable(),
    {
        let mode = self.agy.mode.as_str();
        let docker = text::same_text(mode, "docker");
        let ssh = text::same_text(mode, "ssh");
        !(docker && self.agy.container.is_none()) && !(ssh && self.agy.host.is_none())
    }
}

// ── Configuration files ─────────────────────────────────────────────

/// The content of a `talos.toml` file. Every section may be missing.
#[derive(Debug, Clone)]
pub struct ConfigFile {
    /// The `[agy]` section.
    pub agy: Option<AgyFields>,
    /// The `[defaults]` section.
    pub defaults: Option<DefaultsFields>,
    /// The `[limits]` section.
    pub limits: Option<LimitsFields>,
}

/// The `[agy]` section of a file. Every field may be missing.
#[derive(Debug, Clone)]
pub struct AgyFields {
    /// See [`AgyConfig::mode`].
    pub mode: Option<String>,
    /// See [`AgyConfig::container`].
    pub container: Option<String>,
    /// See [`AgyConfig::host`].
    pub host: Option<String>,
    /// See [`AgyConfig::user`].
    pub user: Option<String>,
    /// See [`AgyConfig::binary_path`].
    pub binary_path: Option<String>,
}

/// The `[defaults]` section of a file. Every field may be missing.
#[derive(Debug, Clone)]
pub struct DefaultsFields {
    /// See [`DefaultsConfig::model`].
    pub model: Option<String>,
    /// See [`DefaultsConfig::timeout_secs`].
    pub timeout_secs: Option<u64>,
    /// See [`DefaultsConfig::skills_dir`].
    pub skills_dir: Option<String>,
    /// See [`DefaultsConfig::data_dir`].
    pub data_dir: Option<String>,
}

/// The `[limits]` section of a file. Every field may be missing.
#[derive(Debug, Clone)]
pub struct LimitsFields {
    /// See [`LimitsConfig::max_concurrent`].
    pub max_concurrent: Option<usize>,
    /// See [`LimitsConfig::max_prompt_bytes`].
    pub max_prompt_bytes: Option<usize>,
}

/// `given` where it is there, `fallback` where it is not.
pub open spec fn given_or<T>(given: Option<T>, fallback: T) -> T {
    match given {
        Some(value) => value,
        None => fallback,
    }
}

/// An `[agy]` section with the missing fields filled in.
pub open spec fn filled_agy(section: Option<AgyFields>) -> AgyView {
    match section {
        None => default_agy(),
        Some(fields) => AgyView {
            mode: given_or(text::option_text(fields.mode), default_agy().mode),
            container: text::option_text(fields.container),
            host: text::option_text(fields.host),
            user: text::option_text(fields.user),
            binary_path: given_or(
                text::option_text(fields.binary_path),
                default_agy().binary_path,
            ),
        },
    }
}

/// A `[defaults]` section with the missing fields filled in.
pub open spec fn filled_defaults(section: Option<DefaultsFields>) -> DefaultsView {
    match section {
        None => default_defaults(),
        Some(fields) => DefaultsView {
            model: given_or(text::option_text(fields.model), default_defaults().model),
            timeout_secs: given_or(fields.timeout_secs, default_defaults().timeout_secs),
            skills_dir: text::option_text(fields.skills_dir),
            data_dir: text::option_text(fields.data_dir),
        },
    }
}

/// A `[limits]` section with the missing fields filled in.
pub open spec fn filled_limits(section: Option<LimitsFields>) -> LimitsConfig {
    match section {
        None => default_limits(),
        Some(fields) => LimitsConfig {
            max_concurrent: given_or(fields.max_concurrent, default_limits().max_concurrent),
            max_prompt_bytes: given_or(fields.max_prompt_bytes, default_limits().max_prompt_bytes),
        },
    }
}

/// The configuration that a file stands for.
pub open spec fn filled(file: ConfigFile) -> ConfigView {
    ConfigView {
        agy: filled_agy(file.agy),
        defaults: filled_defaults(file.defaults),
        limits: filled_limits(file.limits),
    }
}

/// A file without any section stands for the default configuration.
pub proof fn law_empty_file_is_default(file: ConfigFile)
    requires
        file.agy is None,
        file.defaults is None,
        file.limits is None,
    ensures
        filled(file) == default_config(),
{
}

/// A section without any field stands for the default section.
pub proof fn law_empty_sections_are_default(file: ConfigFile)
    requires
        file.agy matches Some(agy) && agy.mode is None && agy.container is None && agy.host is None
            && agy.user is None && agy.binary_path is None,
        file.defaults matches Some(defaults) && defaults.model is None && defaults.timeout_secs
            is None && defaults.skills_dir is None && defaults.data_dir is None,
        file.limits matches Some(limits) && limits.max_concurrent is None
            && limits.max_prompt_bytes is None,
    ensures
        filled(file) == default_config(),
{
}

impl ConfigFile {
    /// The configuration with every missing section and field filled in.
    pub fn fill(self) -> (config: TalosConfig)
        ensures
            config@ == filled(self),
    {
        let agy = match self.agy {
            Some(fields) => AgyConfig {
                mode: match fields.mode {
                    Some(mode) => mode,
                    None => AgyConfig::default_mode(),
                },
                container: fields.container,
                host: fields.host,
                user: fields.user,
                binary_path: match fields.binary_path {
                    Some(path) => path,
                    None => AgyConfig::default_binary_path(),
                },
            },
            None => AgyConfig::default(),
        };
        let defaults = match self.defaults {
            Some(fields) => DefaultsConfig {
                model: match fields.model {
                    Some(model) => model,
                    None => DefaultsConfig::default_model(),
                },
                timeout_secs: match fields.timeout_secs {
                    Some(seconds) => seconds,
                    None => DefaultsConfig::default_timeout_secs(),
                },
                skills_dir: fields.skills_dir,
                data_dir: fields.data_dir,
            },
            None => DefaultsConfig::default(),
        };
        let limits = match self.limits {
            Some(fields) => LimitsConfig {
                max_concurrent: match fields.max_concurrent {
                    Some(count) => count,
                    None => LimitsConfig::default_max_concurrent(),
                },
                max_prompt_bytes: match fields.max_prompt_bytes {
                    Some(bytes) => bytes,
                    None => LimitsConfig::default_max_prompt_bytes(),
                },
            },
            None => LimitsConfig::default(),
        };
        TalosConfig { agy, defaults, limits }
    }
}

/// What came of reading a configuration file.
#[derive(Debug)]
pub enum FileRead {
    /// The file could not be read.
    Unreadable(std::io::Error),
    /// The file is not TOML, or not of the expected shape.
    Malformed(toml::de::Error),
    /// The file was read.
    Parsed(ConfigFile),
}

impl TalosConfig {
    /// The configuration that reading the file at `path` leads to: it has to
    /// be readable, well formed and valid.
    pub fn load(path: &str, read: FileRead) -> (loaded: Result<TalosConfig, TalosError>)
        ensures
            match (read, loaded) {
                (FileRead::Unreadable(cause), Err(TalosError::ConfigError(what))) => {
                    exists|shown: String| #[trigger]
                        to_string_from_display_ensures(&cause, shown) && what@ == "failed to read "@
                            + path@ + ": "@ + shown@
                },
                (FileRead::Malformed(cause), Err(TalosError::ConfigError(what))) => {
                    to_string_from_display_ensures(&cause, what)
                },
                (FileRead::Parsed(file), Ok(config)) => {
                    config@ == filled(file) && config@.fault() is None
                },
                (FileRead::Parsed(file), Err(TalosError::ConfigError(what))) => {
                    filled(file).fault() == Some(what@)
                },
                _ => false,
            },
    {
        match read {
            FileRead::Unreadable(cause) => {
                let shown = cause.to_string();
                Err(
                    TalosError::ConfigError(
                        "failed to read ".to_owned().concat(path).concat(": ").concat(
                            shown.as_str(),
                        ),
                    ),
                )
            },
            FileRead::Malformed(cause) => Err(TalosError::from(cause)),
            FileRead::Parsed(file) => {
                let config = file.fill();
                match config.validate() {
                    Ok(_) => Ok(config),
                    Err(error) => Err(error),
                }
            },
        }
    }
}

// ── Discovery ───────────────────────────────────────────────────────

/// The places where `talos.toml` is looked for, first to last, where `home`
/// is the home directory.
pub open spec fn discovery_list(home: Option<PathView>) -> Seq<PathView> {
    let user = match home {
        Some(dir) => seq![dir.joined(".config/talos/talos.toml"@)],
        None => Seq::empty(),
    };
    seq![paths::text_path("talos.toml"@)] + user + seq![paths::text_path("/etc/talos/talos.toml"@)]
}

impl TalosConfig {
    /// The ordered list of paths to look at, where `home` is the home
    /// directory:
    ///
    /// 1. `./talos.toml` (current working directory)
    /// 2. `$HOME/.config/talos/talos.toml`
    /// 3. `/etc/talos/talos.toml`
    pub fn discovery_paths_from(home: &Option<FilePath>) -> (found: Vec<FilePath>)
        ensures
            paths::path_views(found@) == discovery_list(paths::option_path(*home)),
    {
        let mut found: Vec<FilePath> = Vec::with_capacity(3);
        found.push(FilePath::from_text("talos.toml"));
        if let Some(dir) = home {
            found.push(dir.clone().join(".config/talos/talos.toml"));
        }
        found.push(FilePath::from_text("/etc/talos/talos.toml"));
        assert(paths::path_views(found@) =~= discovery_list(paths::option_path(*home)));
        found
    }

    /// The ordered list of paths to look at. The home directory is whatever
    /// the system says it is.
    pub fn discovery_paths() -> (found: Vec<FilePath>)
        ensures
            exists|home: Option<PathView>|
                paths::path_views(found@) == #[trigger] discovery_list(home),
    {
        let home = paths::home_dir();
        Self::discovery_paths_from(&home)
    }

    /// The agy data directory, where `home` is the home directory.
    pub fn data_dir_from(&self, home: &Option<FilePath>) -> (dir: FilePath)
        ensures
            dir@ == data_directory(self@, paths::option_path(*home)),
    {
        if let Some(dir) = &self.defaults.data_dir {
            return FilePath::from_text(dir.as_str());
        }
        match home {
            Some(dir) => dir.clone().join(".gemini/antigravity-cli"),
            None => FilePath::from_text("/tmp").join(".gemini/antigravity-cli"),
        }
    }

    /// Resolve the agy data directory, falling back to `~/.gemini/antigravity-cli`.
    /// The home directory is whatever the system says it is.
    pub fn data_dir(&self) -> (dir: FilePath)
        ensures
            exists|home: Option<PathView>| dir@ == #[trigger] data_directory(self@, home),
            self@.defaults.data_dir matches Some(given) ==> dir@ == paths::text_path(given),
    {
        let home = paths::home_dir();
        self.data_dir_from(&home)
    }
}

/// The agy data directory, where `home` is the home directory.
pub open spec fn data_directory(config: ConfigView, home: Option<PathView>) -> PathView {
    match config.defaults.data_dir {
        Some(dir) => paths::text_path(dir),
        None => given_or(home, paths::text_path("/tmp"@)).joined(".gemini/antigravity-cli"@),
    }
}

/// What to do next while looking for a configuration file.
#[derive(Debug)]
pub enum DiscoveryAction {
    /// Find out whether this path exists.
    Probe(FilePath),
    /// Load the file at this path.
    Load(FilePath),
    /// No file was found; use [`TalosConfig::default`].
    UseDefaults,
}

/// The candidates for a configuration file that were not looked at yet.
pub struct Discovery {
    candidates: Vec<FilePath>,
    position: usize,
}

impl View for Discovery {
    type V = Seq<PathView>;

    /// The candidates that are left, first to last.
    closed spec fn view(&self) -> Seq<PathView> {
        paths::path_views(self.candidates@).skip(self.position as int)
    }
}

/// The first candidate that is present.
pub open spec fn first_present(
    candidates: Seq<PathView>,
    present: spec_fn(PathView) -> bool,
) -> Option<PathView>
    decreases candidates.len(),
{
    if candidates.len() == 0 {
        None
    } else if present(candidates[0]) {
        Some(candidates[0])
    } else {
        first_present(candidates.drop_first(), present)
    }
}

/// Whether `action` is the one to take while `left` are the candidates left.
pub open spec fn is_next_action(action: DiscoveryAction, left: Seq<PathView>) -> bool {
    match action {
        DiscoveryAction::Probe(path) => left.len() > 0 && path@ == left[0],
        DiscoveryAction::Load(_) => false,
        DiscoveryAction::UseDefaults => left.len() == 0,
    }
}

impl Discovery {
    #[verifier::type_invariant]
    spec fn in_range(self) -> bool {
        self.position <= self.candidates@.len()
    }

    /// Starts with every candidate left.
    pub fn new(candidates: Vec<FilePath>) -> (search: Self)
        ensures
            search@ == paths::path_views(candidates@),
    {
        let search = Discovery { candidates, position: 0 };
        assert(search@ =~= paths::path_views(candidates@));
        search
    }

    /// What to do next.
    pub fn next_action(&self) -> (action: DiscoveryAction)
        ensures
            is_next_action(action, self@),
    {
        proof {
            use_type_invariant(self);
        }
        if self.position < self.candidates.len() {
            DiscoveryAction::Probe(self.candidates[self.position].clone())
        } else {
            DiscoveryAction::UseDefaults
        }
    }

    /// Takes note of whether the probed candidate exists, and says what to do
    /// next: a candidate that exists is loaded, one that does not is passed
    /// over.
    pub fn observe(&mut self, exists: bool) -> (action: DiscoveryAction)
        requires
            old(self)@.len() > 0,
        ensures
            exists ==> final(self)@ == old(self)@ && (action matches DiscoveryAction::Load(path)
                && path@ == old(self)@[0]),
            !exists ==> final(self)@ == old(self)@.drop_first() && is_next_action(
                action,
                final(self)@,
            ),
    {
        proof {
            use_type_invariant(&*self);
        }
        if exists {
            return DiscoveryAction::Load(self.candidates[self.position].clone());
        }
        let total: usize = self.candidates.len();
        assert(self.position < total);
        self.position = self.position + 1;
        assert(self@ =~= old(self)@.drop_first());
        self.next_action()
    }
}

/// Observing the first candidate that is left keeps what discovery will
/// settle on: that candidate where it is present, and what the rest leads to
/// where it is not.
pub proof fn law_discovery_step(left: Seq<PathView>, present: spec_fn(PathView) -> bool)
    requires
        left.len() > 0,
    ensures
        first_present(left, present) == (if present(left[0]) {
            Some(left[0])
        } else {
            first_present(left.drop_first(), present)
        }),
{
}

/// The file that discovery settles on is present, and every candidate before
/// it is not; where it settles on none, no candidate is present.
pub proof fn law_discovery_takes_first_present(
    candidates: Seq<PathView>,
    present: spec_fn(PathView) -> bool,
)
    ensures
        match first_present(candidates, present) {
            Some(path) => exists|i: int|
                0 <= i < candidates.len() && #[trigger] candidates[i] == path && present(path)
                    && forall|j: int| 0 <= j < i ==> !present(#[trigger] candidates[j]),
            None => forall|j: int| 0 <= j < candidates.len() ==> !present(#[trigger] candidates[j]),
        },
    decreases candidates.len(),
{
    if candidates.len() > 0 {
        let rest = candidates.drop_first();
        if present(candidates[0]) {
            assert(candidates[0] == first_present(candidates, present).unwrap());
        } else {
            law_discovery_takes_first_present(rest, present);
            assert forall|j: int| 0 < j < candidates.len() implies candidates[j] == #[trigger] rest[j
                - 1] by {}
            match first_present(candidates, present) {
                Some(path) => {
                    let i = choose|i: int|
                        0 <= i < rest.len() && #[trigger] rest[i] == path && present(path) && forall|
                            j: int,
                        |
                            0 <= j < i ==> !present(#[trigger] rest[j]);
                    assert(candidates[i + 1] == path);
                    assert forall|j: int| 0 <= j < i + 1 implies !present(#[trigger] candidates[j]) by {
                        if j > 0 {
                            assert(!present(rest[j - 1]));
                        }
                    }
                },
                None => {
                    assert forall|j: int| 0 <= j < candidates.len() implies !present(
                        #[trigger] candidates[j],
                    ) by {
                        if j > 0 {
                            assert(!present(rest[j - 1]));
                        }
                    }
                },
            }
        }
    }
}

/// The working directory is looked at first and the system directory last,
/// whatever the home directory is.
pub proof fn law_discovery_order(home: Option<PathView>)
    ensures
        discovery_list(home).first() == paths::text_path("talos.toml"@),
        discovery_list(home).last() == paths::text_path("/etc/talos/talos.toml"@),
        discovery_list(home).len() == (if home is Some {
            3nat
        } else {
            2nat
        }),
{
}

} // verus!
