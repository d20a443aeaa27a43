//! What holds of command lines as a whole.

use vstd::prelude::*;

use crate::command;
use crate::command::Channel;
use crate::config::ConfigView;
use crate::request::{Model, RequestView};
use crate::text;

verus! {

// ── Arguments ───────────────────────────────────────────────────────

/// Without a project, a conversation and an environment, `agy` gets the
/// prompt, the model, the timeout and the leave to act, and nothing else. The
/// timeout is the request's own, or else the configured one.
pub proof fn law_bare_arguments(config: ConfigView, request: RequestView, model: Seq<char>)
    requires
        request.project is None,
        request.conversation_id is None,
        request.environment.len() == 0,
    ensures
        ({
            let seconds: u64 = match request.timeout_override {
                Some(own) => own,
                None => config.defaults.timeout_secs,
            };
            command::agy_arguments(config, request, model) == seq![
                "--print"@,
                request.prompt,
                "--model"@,
                model,
                "--print-timeout"@,
                text::decimal(seconds as nat) + "s"@,
                "--dangerously-skip-permissions"@,
            ]
        }),
{
    assert(command::agy_arguments(config, request, model) =~= command::common_args(
        config,
        request,
        model,
    ));
}

/// A project adds the pair `--project`, project behind the arguments that
/// every invocation has, and changes nothing else, whatever else is asked for.
pub proof fn law_project_is_passed_on(
    config: ConfigView,
    request: RequestView,
    model: Seq<char>,
    project: Seq<char>,
)
    requires
        request.project == Some(project),
    ensures
        ({
            let without = command::agy_arguments(
                config,
                RequestView { project: None, ..request },
                model,
            );
            &&& without.len() >= 7
            &&& command::agy_arguments(config, request, model) == without.take(7) + seq![
                "--project"@,
                project,
            ] + without.skip(7)
        }),
{
    let without = command::agy_arguments(config, RequestView { project: None, ..request }, model);
    assert(command::agy_arguments(config, request, model) =~= without.take(7) + seq![
        "--project"@,
        project,
    ] + without.skip(7));
}

/// A conversation ID adds the pair `--conversation`, ID behind the project,
/// and changes nothing else, whatever else is asked for.
pub proof fn law_conversation_is_passed_on(
    config: ConfigView,
    request: RequestView,
    model: Seq<char>,
    id: Seq<char>,
)
    requires
        request.conversation_id == Some(id),
    ensures
        ({
            let without = command::agy_arguments(
                config,
                RequestView { conversation_id: None, ..request },
                model,
            );
            let at: int = if request.project is Some {
                9
            } else {
                7
            };
            &&& without.len() >= at
            &&& command::agy_arguments(config, request, model) == without.take(at) + seq![
                "--conversation"@,
                id,
            ] + without.skip(at)
        }),
{
    let without = command::agy_arguments(
        config,
        RequestView { conversation_id: None, ..request },
        model,
    );
    let at: int = if request.project is Some {
        9
    } else {
        7
    };
    assert(command::agy_arguments(config, request, model) =~= without.take(at) + seq![
        "--conversation"@,
        id,
    ] + without.skip(at));
}

/// One more variable adds the pair `--env`, `NAME=VALUE` at the end, and
/// changes nothing else, whatever else is asked for.
pub proof fn law_variable_is_passed_on(
    config: ConfigView,
    request: RequestView,
    model: Seq<char>,
    name: Seq<char>,
    value: Seq<char>,
)
    ensures
        command::agy_arguments(
            config,
            (RequestView { environment: request.environment.push((name, value)), ..request }),
            model,
        ) == command::agy_arguments(config, request, model) + seq![
            "--env"@,
            name + seq!['='] + value,
        ],
{
    let vars = request.environment.push((name, value));
    let more = RequestView { environment: vars, ..request };
    reveal_strlit("=");
    assert("="@ =~= seq!['=']);
    assert(vars.drop_last() =~= request.environment);
    assert(command::agy_arguments(config, more, model) =~= command::agy_arguments(
        config,
        request,
        model,
    ) + seq!["--env"@, name + seq!['='] + value]);
}

/// The model and the skills of the request, and every setting but the
/// timeout, have no bearing on the arguments of `agy`.
pub proof fn law_arguments_depend_on_nothing_else(
    config: ConfigView,
    other: ConfigView,
    request: RequestView,
    model: Seq<char>,
    named: Model,
    skills: Seq<Seq<char>>,
)
    requires
        config.defaults.timeout_secs == other.defaults.timeout_secs || request.timeout_override
            is Some,
    ensures
        command::agy_arguments(config, request, model) == command::agy_arguments(
            other,
            (RequestView { model: named, skills, ..request }),
            model,
        ),
{
}

// ── Execution modes ─────────────────────────────────────────────────

/// In every mode but `docker` and `ssh`, the binary is run with the arguments
/// of `agy` alone.
pub proof fn law_local_command(config: ConfigView, request: RequestView, model: Seq<char>)
    requires
        config.agy.mode != "docker"@,
        config.agy.mode != "ssh"@,
    ensures
        command::agy_command(config, request, model).program == config.agy.binary_path,
        command::agy_command(config, request, model).args == command::agy_arguments(
            config,
            request,
            model,
        ),
{
    assert(command::agy_command(config, request, model).args =~= command::agy_arguments(
        config,
        request,
        model,
    ));
}

/// In `docker` mode, `docker exec` runs the binary in the container.
pub proof fn law_docker_command(
    config: ConfigView,
    request: RequestView,
    model: Seq<char>,
    container: Seq<char>,
)
    requires
        config.agy.mode == "docker"@,
        config.agy.container == Some(container),
    ensures
        command::agy_command(config, request, model).program == "docker"@,
        command::agy_command(config, request, model).args == seq![
            "exec"@,
            container,
            config.agy.binary_path,
        ] + command::agy_arguments(config, request, model),
{
}

/// In `ssh` mode, `ssh` runs the binary on the host, as the user where one is
/// given.
pub proof fn law_ssh_command(
    config: ConfigView,
    request: RequestView,
    model: Seq<char>,
    host: Seq<char>,
)
    requires
        config.agy.mode == "ssh"@,
        config.agy.host == Some(host),
    ensures
        command::agy_command(config, request, model).program == "ssh"@,
        command::agy_command(config, request, model).args == seq![
            match config.agy.user {
                Some(user) => user + seq!['@'] + host,
                None => host,
            },
            config.agy.binary_path,
        ] + command::agy_arguments(config, request, model),
{
    reveal_strlit("ssh");
    reveal_strlit("docker");
    reveal_strlit("@");
    assert("ssh"@.len() == 3 && "docker"@.len() == 6);
    assert("@"@ =~= seq!['@']);
}

/// Whatever is run, its output and its error output are captured, and it does
/// not inherit the input of this process.
pub proof fn law_output_is_captured(config: ConfigView, request: RequestView, model: Seq<char>)
    ensures
        command::agy_command(config, request, model).stdin == Channel::Null,
        command::agy_command(config, request, model).stdout == Channel::Piped,
        command::agy_command(config, request, model).stderr == Channel::Piped,
{
}

/// What a command says is what its fields hold.
pub proof fn law_command_view(command: command::AgyCommand)
    ensures
        command@.program == command.program@,
        command@.args.len() == command.args@.len(),
        forall|i: int| 0 <= i < command.args@.len() ==> #[trigger] command@.args[i]
            == command.args@[i]@,
        command@.stdin == command.stdin,
        command@.stdout == command.stdout,
        command@.stderr == command.stderr,
{
}

} // verus!
