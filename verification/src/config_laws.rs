//! What holds of configurations as a whole.

use vstd::prelude::*;

use crate::config;
use crate::config::{
    AgyConfig, ConfigFile, ConfigView, DefaultsConfig, DiscoveryAction, TalosConfig,
};
use crate::paths;
use crate::paths::PathView;

verus! {

// ── Filling in ──────────────────────────────────────────────────────

/// Each field of the `[agy]` section is filled in on its own: one that the
/// file gives is kept, whichever others are missing, and a missing one is the
/// documented default, whichever others are given.
pub proof fn law_agy_fields_are_filled_one_by_one(file: ConfigFile)
    ensures
        ({
            let agy = config::filled(file).agy;
            &&& agy.mode == (match file.agy {
                Some(section) => match section.mode {
                    Some(mode) => mode@,
                    None => "local"@,
                },
                None => "local"@,
            })
            &&& agy.binary_path == (match file.agy {
                Some(section) => match section.binary_path {
                    Some(path) => path@,
                    None => "agy"@,
                },
                None => "agy"@,
            })
            &&& agy.container == (match file.agy {
                Some(section) => match section.container {
                    Some(container) => Some(container@),
                    None => None,
                },
                None => None,
            })
            &&& agy.host == (match file.agy {
                Some(section) => match section.host {
                    Some(host) => Some(host@),
                    None => None,
                },
                None => None,
            })
            &&& agy.user == (match file.agy {
                Some(section) => match section.user {
                    Some(user) => Some(user@),
                    None => None,
                },
                None => None,
            })
        }),
{
}

/// Each field of the `[defaults]` section is filled in on its own.
pub proof fn law_defaults_fields_are_filled_one_by_one(file: ConfigFile)
    ensures
        ({
            let defaults = config::filled(file).defaults;
            &&& defaults.model == (match file.defaults {
                Some(section) => match section.model {
                    Some(model) => model@,
                    None => "gemini-flash-agent"@,
                },
                None => "gemini-flash-agent"@,
            })
            &&& defaults.timeout_secs == (match file.defaults {
                Some(section) => match section.timeout_secs {
                    Some(seconds) => seconds,
                    None => 300,
                },
                None => 300,
            })
            &&& defaults.skills_dir == (match file.defaults {
                Some(section) => match section.skills_dir {
                    Some(dir) => Some(dir@),
                    None => None,
                },
                None => None,
            })
            &&& defaults.data_dir == (match file.defaults {
                Some(section) => match section.data_dir {
                    Some(dir) => Some(dir@),
                    None => None,
                },
                None => None,
            })
        }),
{
}

/// Each field of the `[limits]` section is filled in on its own.
pub proof fn law_limits_fields_are_filled_one_by_one(file: ConfigFile)
    ensures
        ({
            let limits = config::filled(file).limits;
            &&& limits.max_concurrent == (match file.limits {
                Some(section) => match section.max_concurrent {
                    Some(count) => count,
                    None => 4,
                },
                None => 4,
            })
            &&& limits.max_prompt_bytes == (match file.limits {
                Some(section) => match section.max_prompt_bytes {
                    Some(bytes) => bytes,
                    None => 1_048_576,
                },
                None => 1_048_576,
            })
        }),
{
}

/// No section bears on another: files that agree in a section agree in what
/// it is filled in to.
pub proof fn law_sections_are_filled_apart(file: ConfigFile, other: ConfigFile)
    ensures
        file.agy == other.agy ==> config::filled(file).agy == config::filled(other).agy,
        file.defaults == other.defaults ==> config::filled(file).defaults == config::filled(
            other,
        ).defaults,
        file.limits == other.limits ==> config::filled(file).limits == config::filled(
            other,
        ).limits,
{
}

/// A value that is given stands, and the fallback stands for one that is not.
pub proof fn law_given_values_stand<T>(value: T, fallback: T)
    ensures
        config::given_or(Some(value), fallback) == value,
        config::given_or(None, fallback) == fallback,
{
}

// ── Validation ──────────────────────────────────────────────────────

/// A configuration is faulty exactly where its mode is none of the three, or
/// lacks the one field that it needs.
pub proof fn law_faults(config: ConfigView)
    ensures
        config.fault() is None <==> (config.agy.mode == "local"@ || (config.agy.mode == "docker"@
            && config.agy.container is Some) || (config.agy.mode == "ssh"@ && config.agy.host
            is Some)),
{
    reveal_strlit("local");
    reveal_strlit("docker");
    reveal_strlit("ssh");
    assert("local"@.len() == 5 && "docker"@.len() == 6 && "ssh"@.len() == 3);
}

/// A fault names the field that is missing, or the mode that is unknown.
pub proof fn law_fault_messages(config: ConfigView)
    ensures
        config.agy.mode == "docker"@ && config.agy.container is None ==> config.fault() == Some(
            "agy.container is required when mode = \"docker\""@,
        ),
        config.agy.mode == "ssh"@ && config.agy.host is None ==> config.fault() == Some(
            "agy.host is required when mode = \"ssh\""@,
        ),
        config.agy.mode != "local"@ && config.agy.mode != "docker"@ && config.agy.mode != "ssh"@
            ==> config.fault() == Some(
            "unknown agy.mode: \""@ + config.agy.mode
                + "\" (expected \"local\", \"docker\", or \"ssh\")"@,
        ),
{
    reveal_strlit("local");
    reveal_strlit("docker");
    reveal_strlit("ssh");
    assert("local"@.len() == 5 && "docker"@.len() == 6 && "ssh"@.len() == 3);
}

/// A mode can be launched unless it lacks the one field that it needs.
pub proof fn law_what_launching_needs(config: ConfigView)
    ensures
        config.reachable() <==> !(config.agy.mode == "docker"@ && config.agy.container is None)
            && !(config.agy.mode == "ssh"@ && config.agy.host is None),
{
}

// ── Places ──────────────────────────────────────────────────────────

/// Between the working directory and the system directory, the user's own is
/// looked at, where there is a home directory.
pub proof fn law_discovery_places(home: PathView)
    ensures
        config::discovery_list(Some(home)) == seq![
            paths::text_path("talos.toml"@),
            home.joined(".config/talos/talos.toml"@),
            paths::text_path("/etc/talos/talos.toml"@),
        ],
        config::discovery_list(None) == seq![
            paths::text_path("talos.toml"@),
            paths::text_path("/etc/talos/talos.toml"@),
        ],
{
    assert(config::discovery_list(Some(home)) =~= seq![
        paths::text_path("talos.toml"@),
        home.joined(".config/talos/talos.toml"@),
        paths::text_path("/etc/talos/talos.toml"@),
    ]);
    assert(config::discovery_list(None) =~= seq![
        paths::text_path("talos.toml"@),
        paths::text_path("/etc/talos/talos.toml"@),
    ]);
}

/// A configured data directory stands, wherever the home directory is.
pub proof fn law_configured_data_directory(
    config: ConfigView,
    home: Option<PathView>,
    dir: Seq<char>,
)
    requires
        config.defaults.data_dir == Some(dir),
    ensures
        config::data_directory(config, home) == paths::text_path(dir),
{
}

/// Without one, it is the tool's own directory below the home directory, or
/// below `/tmp` where there is none; no other setting bears on it.
pub proof fn law_default_data_directory(config: ConfigView, home: PathView)
    requires
        config.defaults.data_dir is None,
    ensures
        config::data_directory(config, Some(home)) == home.joined(".gemini/antigravity-cli"@),
        config::data_directory(config, None) == paths::text_path("/tmp"@).joined(
            ".gemini/antigravity-cli"@,
        ),
{
}

/// While candidates are left, the first one is probed; when none is left, the
/// defaults are used.
pub proof fn law_next_action(action: DiscoveryAction, left: Seq<PathView>)
    ensures
        config::is_next_action(action, left) <==> (if left.len() > 0 {
            action matches DiscoveryAction::Probe(path) && path@ == left[0]
        } else {
            action is UseDefaults
        }),
{
}

// ── Views ───────────────────────────────────────────────────────────

/// What a configuration says is what its fields hold.
pub proof fn law_config_view(config: TalosConfig)
    ensures
        config@.agy == config.agy@,
        config@.defaults == config.defaults@,
        config@.limits == config.limits,
{
}

/// What an `[agy]` section says is what its fields hold.
pub proof fn law_agy_view(agy: AgyConfig)
    ensures
        agy@.mode == agy.mode@,
        agy@.binary_path == agy.binary_path@,
        agy@.container == (match agy.container {
            Some(s) => Some(s@),
            None => None,
        }),
        agy@.host == (match agy.host {
            Some(s) => Some(s@),
            None => None,
        }),
        agy@.user == (match agy.user {
            Some(s) => Some(s@),
            None => None,
        }),
{
}

/// What a `[defaults]` section says is what its fields hold.
pub proof fn law_defaults_view(defaults: DefaultsConfig)
    ensures
        defaults@.model == defaults.model@,
        defaults@.timeout_secs == defaults.timeout_secs,
        defaults@.skills_dir == (match defaults.skills_dir {
            Some(s) => Some(s@),
            None => None,
        }),
        defaults@.data_dir == (match defaults.data_dir {
            Some(s) => Some(s@),
            None => None,
        }),
{
}

} // verus!
