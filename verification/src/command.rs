//! Command construction for `agy` invocations.
//!
//! [`CommandBuilder`] takes a [`TalosConfig`] and [`TalosRequest`] and produces
//! an [`AgyCommand`] ready to spawn, handling all three execution modes
//! (local, docker, ssh).

use vstd::prelude::*;

use crate::config;
use crate::config::{ConfigView, TalosConfig};
use crate::request;
use crate::request::{RequestView, TalosRequest};
use crate::text;

verus! {

/// What a standard stream of the child process is connected to.
#[derive(Debug, Clone, Copy, PartialEq, Eq, Structural)]
pub enum Channel {
    /// Nothing: reads are empty, writes are dropped.
    Null,
    /// A pipe to this process.
    Piped,
}

/// A program with its arguments, none of which passes through a shell.
#[derive(Debug, Clone)]
pub struct AgyCommand {
    /// The program to run.
    pub program: String,
    /// Its arguments, in order.
    pub args: Vec<String>,
    /// Where its input comes from.
    pub stdin: Channel,
    /// Where its output goes.
    pub stdout: Channel,
    /// Where its error output goes.
    pub stderr: Channel,
}

/// What an [`AgyCommand`] runs.
pub struct CommandView {
    pub program: Seq<char>,
    pub args: Seq<Seq<char>>,
    pub stdin: Channel,
    pub stdout: Channel,
    pub stderr: Channel,
}

impl View for AgyCommand {
    type V = CommandView;

    open spec fn view(&self) -> CommandView {
        CommandView {
            program: self.program@,
            args: text::string_texts(self.args@),
            stdin: self.stdin,
            stdout: self.stdout,
            stderr: self.stderr,
        }
    }
}

// ── Argument assembly ────────────────────────────────────────────────

/// The timeout of an invocation in seconds: the request's own, or else the
/// configured one.
pub open spec fn effective_timeout(config: ConfigView, request: RequestView) -> u64 {
    config::given_or(request.timeout_override, config.defaults.timeout_secs)
}

/// `flag` and its value, where there is a value.
pub open spec fn option_args(flag: Seq<char>, value: Option<Seq<char>>) -> Seq<Seq<char>> {
    match value {
        Some(v) => seq![flag, v],
        None => Seq::empty(),
    }
}

/// `--env NAME=VALUE` for each variable, in order.
pub open spec fn env_args(vars: Seq<(Seq<char>, Seq<char>)>) -> Seq<Seq<char>>
    decreases vars.len(),
{
    if vars.len() == 0 {
        Seq::empty()
    } else {
        env_args(vars.drop_last()) + seq!["--env"@, vars.last().0 + "="@ + vars.last().1]
    }
}

/// The arguments that every invocation has.
pub open spec fn common_args(
    config: ConfigView,
    request: RequestView,
    model: Seq<char>,
) -> Seq<Seq<char>> {
    seq![
        "--print"@,
        request.prompt,
        "--model"@,
        model,
        "--print-timeout"@,
        text::decimal(effective_timeout(config, request) as nat) + "s"@,
        "--dangerously-skip-permissions"@,
    ]
}

/// The arguments passed to `agy` itself, where `model` is the model to use.
pub open spec fn agy_arguments(
    config: ConfigView,
    request: RequestView,
    model: Seq<char>,
) -> Seq<Seq<char>> {
    common_args(config, request, model) + option_args("--project"@, request.project) + option_args(
        "--conversation"@,
        request.conversation_id,
    ) + env_args(request.environment)
}

// ── Mode-specific command construction ──────────────────────────────

/// The SSH destination: `user@host`, or just the host.
pub open spec fn ssh_target(user: Option<Seq<char>>, host: Seq<char>) -> Seq<char> {
    match user {
        Some(name) => name + "@"@ + host,
        None => host,
    }
}

/// What stands before the arguments of `agy` in the arguments of the program.
pub open spec fn launch_args(config: ConfigView) -> Seq<Seq<char>> {
    if config.agy.mode == "docker"@ {
        seq!["exec"@, config.agy.container.unwrap(), config.agy.binary_path]
    } else if config.agy.mode == "ssh"@ {
        seq![ssh_target(config.agy.user, config.agy.host.unwrap()), config.agy.binary_path]
    } else {
        Seq::empty()
    }
}

/// The program that is run.
pub open spec fn launch_program(config: ConfigView) -> Seq<char> {
    if config.agy.mode == "docker"@ {
        "docker"@
    } else if config.agy.mode == "ssh"@ {
        "ssh"@
    } else {
        config.agy.binary_path
    }
}

/// The command of an invocation that uses `model`. Output and error output are captured, and
/// the child does not inherit this process's input.
pub open spec fn agy_command(
    config: ConfigView,
    request: RequestView,
    model: Seq<char>,
) -> CommandView {
    CommandView {
        program: launch_program(config),
        args: launch_args(config) + agy_arguments(config, request, model),
        stdin: Channel::Null,
        stdout: Channel::Piped,
        stderr: Channel::Piped,
    }
}

/// Appends copies of `more` to `args`.
fn push_all(args: &mut Vec<String>, more: &Vec<String>)
    ensures
        text::string_texts(final(args)@) == text::string_texts(old(args)@) + text::string_texts(
            more@,
        ),
{
    let mut i: usize = 0;
    assert(text::string_texts(more@).take(0) =~= Seq::<Seq<char>>::empty());
    assert(text::string_texts(args@) =~= text::string_texts(old(args)@) + text::string_texts(
        more@,
    ).take(0));
    while i < more.len()
        invariant
            i <= more@.len(),
            text::string_texts(args@) == text::string_texts(old(args)@) + text::string_texts(
                more@,
            ).take(i as int),
        decreases more@.len() - i,
    {
        let ghost before = args@;
        args.push(more[i].clone());
        proof {
            assert(text::string_texts(args@) =~= text::string_texts(before).push(
                more@[i as int]@,
            ));
            assert(text::string_texts(more@).take(i + 1) =~= text::string_texts(more@).take(
                i as int,
            ).push(more@[i as int]@));
        }
        i = i + 1;
        assert(text::string_texts(args@) =~= text::string_texts(old(args)@) + text::string_texts(
            more@,
        ).take(i as int));
    }
    assert(text::string_texts(more@).take(i as int) =~= text::string_texts(more@));
}

/// Builds the command for an `agy` invocation.
pub struct CommandBuilder<'a> {
    /// The configuration in force.
    pub config: &'a TalosConfig,
    /// The request to serve.
    pub request: &'a TalosRequest,
    /// The model name passed to `--model`.
    pub model: &'a str,
}

impl<'a> CommandBuilder<'a> {
    /// Create a new builder from the given config and request.
    pub fn new(config: &'a TalosConfig, request: &'a TalosRequest) -> (builder: Self)
        ensures
            builder.config == config,
            builder.request == request,
            builder.model@ == request@.model.flag(),
    {
        Self { config, request, model: request.model_name() }
    }

    /// Use the default model from the config instead of the request's.
    pub fn with_default_model(self) -> (builder: Self)
        ensures
            builder.config == self.config,
            builder.request == self.request,
            builder.model@ == self.config@.defaults.model,
    {
        Self { config: self.config, request: self.request, model: self.config.defaults.model.as_str() }
    }

    /// Build the command. The prompt is passed as one argument and does
    /// **not** pass through a shell, so special characters in the prompt are
    /// handled safely.
    pub fn build(&self) -> (command: AgyCommand)
        requires
            self.config@.reachable(),
        ensures
            command@ == agy_command(self.config@, self.request@, self.model@),
            request::names_distinct(self.request@.environment),
    {
        let agy_args = self.agy_args();
        let mode = self.config.agy.mode.as_str();
        let (program, args) = if text::same_text(mode, "docker") {
            self.docker_command(&agy_args)
        } else if text::same_text(mode, "ssh") {
            self.ssh_command(&agy_args)
        } else {
            self.local_command(&agy_args)
        };
        AgyCommand {
            program,
            args,
            stdin: Channel::Null,
            stdout: Channel::Piped,
            stderr: Channel::Piped,
        }
    }

    /// The timeout of the invocation in seconds.
    pub fn timeout_secs(&self) -> (seconds: u64)
        ensures
            seconds == effective_timeout(self.config@, self.request@),
    {
        match self.request.timeout_override {
            Some(seconds) => seconds,
            None => self.config.defaults.timeout_secs,
        }
    }

    /// Assemble the flat list of arguments passed to `agy` itself.
    pub fn agy_args(&self) -> (args: Vec<String>)
        ensures
            text::string_texts(args@) == agy_arguments(self.config@, self.request@, self.model@),
            request::names_distinct(self.request@.environment),
    {
        let mut args: Vec<String> = Vec::with_capacity(16);
        args.push("--print".to_owned());
        args.push(self.request.prompt.clone());
        args.push("--model".to_owned());
        args.push(self.model.to_owned());
        args.push("--print-timeout".to_owned());
        args.push(text::decimal_text(self.timeout_secs()).concat("s"));
        args.push("--dangerously-skip-permissions".to_owned());
        let ghost mut known = common_args(self.config@, self.request@, self.model@);
        assert(text::string_texts(args@) =~= known);
        if let Some(project) = &self.request.project {
            args.push("--project".to_owned());
            args.push(project.clone());
        }
        proof {
            known = known + option_args("--project"@, self.request@.project);
            assert(text::string_texts(args@) =~= known);
        }
        if let Some(conversation) = &self.request.conversation_id {
            args.push("--conversation".to_owned());
            args.push(conversation.clone());
        }
        proof {
            known = known + option_args("--conversation"@, self.request@.conversation_id);
            assert(text::string_texts(args@) =~= known);
        }
        let ghost vars = self.request@.environment;
        let count: usize = self.request.environment.len();
        let mut i: usize = 0;
        assert(known + env_args(vars.take(0)) =~= known);
        while i < count
            invariant
                i <= count,
                vars == self.request@.environment,
                count == vars.len(),
                text::string_texts(args@) == known + env_args(vars.take(i as int)),
            decreases count - i,
        {
            let ghost before = args@;
            let (key, value) = self.request.environment.entry(i);
            args.push("--env".to_owned());
            args.push(key.to_owned().concat("=").concat(value));
            proof {
                let now = vars.take(i + 1);
                assert(now.drop_last() =~= vars.take(i as int));
                assert(now.last() == vars[i as int]);
                assert(text::string_texts(args@) =~= text::string_texts(before) + seq![
                    "--env"@,
                    vars[i as int].0 + "="@ + vars[i as int].1,
                ]);
                assert(text::string_texts(args@) =~= known + env_args(now));
            }
            i = i + 1;
        }
        assert(vars.take(count as int) =~= vars);
        args
    }

    /// Local mode: invoke `agy` directly.
    fn local_command(&self, agy_args: &Vec<String>) -> (command: (String, Vec<String>))
        ensures
            command.0@ == self.config@.agy.binary_path,
            text::string_texts(command.1@) == text::string_texts(agy_args@),
    {
        let mut args: Vec<String> = Vec::new();
        push_all(&mut args, agy_args);
        assert(text::string_texts(args@) =~= text::string_texts(agy_args@));
        (self.config.agy.binary_path.clone(), args)
    }

    /// Docker mode: `docker exec <container> agy ...`
    fn docker_command(&self, agy_args: &Vec<String>) -> (command: (String, Vec<String>))
        requires
            self.config@.agy.container is Some,
        ensures
            command.0@ == "docker"@,
            text::string_texts(command.1@) == seq![
                "exec"@,
                self.config@.agy.container.unwrap(),
                self.config@.agy.binary_path,
            ] + text::string_texts(agy_args@),
    {
        let container = self.config.agy.container.as_ref().unwrap();
        let mut args: Vec<String> = Vec::new();
        args.push("exec".to_owned());
        args.push(container.clone());
        args.push(self.config.agy.binary_path.clone());
        assert(text::string_texts(args@) =~= seq![
            "exec"@,
            self.config@.agy.container.unwrap(),
            self.config@.agy.binary_path,
        ]);
        push_all(&mut args, agy_args);
        ("docker".to_owned(), args)
    }

    /// SSH mode: `ssh [user@]host agy ...`
    fn ssh_command(&self, agy_args: &Vec<String>) -> (command: (String, Vec<String>))
        requires
            self.config@.agy.host is Some,
        ensures
            command.0@ == "ssh"@,
            text::string_texts(command.1@) == seq![
                ssh_target(self.config@.agy.user, self.config@.agy.host.unwrap()),
                self.config@.agy.binary_path,
            ] + text::string_texts(agy_args@),
    {
        let host = self.config.agy.host.as_ref().unwrap();
        let target = match &self.config.agy.user {
            Some(user) => user.clone().concat("@").concat(host.as_str()),
            None => host.clone(),
        };
        let mut args: Vec<String> = Vec::new();
        args.push(target);
        args.push(self.config.agy.binary_path.clone());
        assert(text::string_texts(args@) =~= seq![
            ssh_target(self.config@.agy.user, self.config@.agy.host.unwrap()),
            self.config@.agy.binary_path,
        ]);
        push_all(&mut args, agy_args);
        ("ssh".to_owned(), args)
    }
}

// ── Laws ────────────────────────────────────────────────────────────

/// Whatever the prompt holds, it is one argument of the command, the one
/// behind `--print`, in every execution mode.
pub proof fn law_prompt_is_one_argument(
    config: ConfigView,
    request: RequestView,
    model: Seq<char>,
)
    ensures
        ({
            let args = agy_command(config, request, model).args;
            let at = launch_args(config).len() as int;
            &&& at + 1 < args.len()
            &&& args[at] == "--print"@
            &&& args[at + 1] == request.prompt
        }),
{
}

/// The prompt bears on no other argument and not on the program.
pub proof fn law_prompt_changes_only_its_argument(
    config: ConfigView,
    request: RequestView,
    model: Seq<char>,
    prompt: Seq<char>,
)
    ensures
        ({
            let changed = RequestView { prompt, ..request };
            let at = launch_args(config).len() as int + 1;
            &&& agy_command(config, changed, model).program == agy_command(config, request, model).program
            &&& agy_command(config, changed, model).args == agy_command(config, request, model).args.update(
                at,
                prompt,
            )
        }),
{
    let changed = RequestView { prompt, ..request };
    let at = launch_args(config).len() as int + 1;
    assert(agy_command(config, changed, model).args =~= agy_command(config, request, model).args.update(
        at,
        prompt,
    ));
}

/// The choice of the model bears only on the argument behind `--model`.
pub proof fn law_model_changes_only_its_argument(
    config: ConfigView,
    request: RequestView,
    model: Seq<char>,
    other: Seq<char>,
)
    ensures
        ({
            let args = agy_command(config, request, model).args;
            let at = launch_args(config).len() as int + 2;
            &&& at + 1 < args.len()
            &&& args[at] == "--model"@
            &&& args[at + 1] == model
            &&& agy_command(config, request, other).program == agy_command(
                config,
                request,
                model,
            ).program
            &&& agy_command(config, request, other).args == args.update(at + 1, other)
        }),
{
    let args = agy_command(config, request, model).args;
    let at = launch_args(config).len() as int + 2;
    assert(agy_command(config, request, other).args =~= args.update(at + 1, other));
}

/// `agy` is told to give up when the caller does: the argument behind
/// `--print-timeout` is the effective timeout, in seconds.
pub proof fn law_timeout_is_passed_on(config: ConfigView, request: RequestView, model: Seq<char>)
    ensures
        ({
            let args = agy_command(config, request, model).args;
            let at = launch_args(config).len() as int + 4;
            &&& at + 1 < args.len()
            &&& args[at] == "--print-timeout"@
            &&& args[at + 1] == text::decimal(effective_timeout(config, request) as nat) + "s"@
        }),
{
}

/// Every execution mode hands `agy` the same arguments.
pub proof fn law_modes_share_arguments(
    config: ConfigView,
    request: RequestView,
    model: Seq<char>,
)
    ensures
        agy_command(config, request, model).args.skip(launch_args(config).len() as int) == agy_arguments(
            config,
            request,
            model,
        ),
{
    assert(agy_command(config, request, model).args.skip(launch_args(config).len() as int)
        =~= agy_arguments(config, request, model));
}

/// Whether the `i`-th pair of `args` forwards the variable `var`.
pub open spec fn forwards(args: Seq<Seq<char>>, i: int, var: (Seq<char>, Seq<char>)) -> bool {
    &&& args[2 * i] == "--env"@
    &&& args[2 * i + 1] == var.0 + "="@ + var.1
}

/// Each environment variable is forwarded by one `--env NAME=VALUE` pair.
pub proof fn law_environment_is_forwarded(vars: Seq<(Seq<char>, Seq<char>)>)
    ensures
        env_args(vars).len() == 2 * vars.len(),
        forall|i: int| 0 <= i < vars.len() ==> forwards(env_args(vars), i, #[trigger] vars[i]),
    decreases vars.len(),
{
    if vars.len() > 0 {
        let rest = vars.drop_last();
        law_environment_is_forwarded(rest);
        assert forall|i: int| 0 <= i < vars.len() implies forwards(
            env_args(vars),
            i,
            #[trigger] vars[i],
        ) by {
            if i < rest.len() {
                assert(forwards(env_args(rest), i, rest[i]));
            }
        }
    }
}

} // verus!
