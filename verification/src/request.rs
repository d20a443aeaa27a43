//! Requests to invoke `agy`.

use vstd::prelude::*;

use crate::text;

verus! {

// ── Model ───────────────────────────────────────────────────────────

/// Gemini model variants supported by `agy`.
#[derive(Debug, Clone, Copy, PartialEq, Eq, Hash, Structural)]
pub enum Model {
    /// `gemini-flash-agent` — fast, capable, default choice.
    GeminiFlash,
    /// `gemini-pro-agent` — highest quality, slower.
    GeminiPro,
    /// `gemini-flash-lite-agent` — fastest, lightest.
    GeminiFlashLite,
}

impl Model {
    /// The CLI flag value for `--model`.
    pub open spec fn flag(self) -> Seq<char> {
        match self {
            Model::GeminiFlash => "gemini-flash-agent"@,
            Model::GeminiPro => "gemini-pro-agent"@,
            Model::GeminiFlashLite => "gemini-flash-lite-agent"@,
        }
    }

    /// Returns the CLI flag value for `--model`.
    pub fn as_str(&self) -> (value: &'static str)
        ensures
            value@ == self.flag(),
    {
        match self {
            Model::GeminiFlash => "gemini-flash-agent",
            Model::GeminiPro => "gemini-pro-agent",
            Model::GeminiFlashLite => "gemini-flash-lite-agent",
        }
    }
}

impl Default for Model {
    fn default() -> (model: Self)
        ensures
            model == Model::GeminiFlash,
    {
        Model::GeminiFlash
    }
}

/// No two models share a flag value.
pub proof fn law_model_flags_differ(a: Model, b: Model)
    requires
        a.flag() == b.flag(),
    ensures
        a == b,
{
    reveal_strlit("gemini-flash-agent");
    reveal_strlit("gemini-pro-agent");
    reveal_strlit("gemini-flash-lite-agent");
    assert("gemini-flash-agent"@.len() == 18);
    assert("gemini-pro-agent"@.len() == 16);
    assert("gemini-flash-lite-agent"@.len() == 23);
}

// ── Environment ─────────────────────────────────────────────────────

/// Environment variables, each name with one value. The variables keep the
/// order in which their names were first set.
#[derive(Debug)]
pub struct EnvVars {
    entries: Vec<(String, String)>,
}

impl View for EnvVars {
    type V = Seq<(Seq<char>, Seq<char>)>;

    /// The names and values, in order.
    closed spec fn view(&self) -> Seq<(Seq<char>, Seq<char>)> {
        entry_views(self.entries@)
    }
}

/// The names and values behind owned strings.
spec fn entry_views(entries: Seq<(String, String)>) -> Seq<(Seq<char>, Seq<char>)> {
    entries.map_values(|entry: (String, String)| (entry.0@, entry.1@))
}

/// Whether no name occurs twice.
pub open spec fn names_distinct(vars: Seq<(Seq<char>, Seq<char>)>) -> bool {
    forall|i: int, j: int|
        0 <= i < j < vars.len() ==> (#[trigger] vars[i]).0 != (#[trigger] vars[j]).0
}

/// The value of each name that is set.
pub open spec fn env_map(vars: Seq<(Seq<char>, Seq<char>)>) -> Map<Seq<char>, Seq<char>>
    decreases vars.len(),
{
    if vars.len() == 0 {
        Map::empty()
    } else {
        env_map(vars.drop_last()).insert(vars.last().0, vars.last().1)
    }
}

/// `vars` with `name` set to `value`: in its place where it is set already,
/// at the end where it is not.
pub open spec fn env_put(
    vars: Seq<(Seq<char>, Seq<char>)>,
    name: Seq<char>,
    value: Seq<char>,
) -> Seq<(Seq<char>, Seq<char>)>
    decreases vars.len(),
{
    if vars.len() == 0 {
        seq![(name, value)]
    } else if vars[0].0 == name {
        seq![(name, value)] + vars.drop_first()
    } else {
        seq![vars[0]] + env_put(vars.drop_first(), name, value)
    }
}

/// Where the first entry with the name stands decides what a change does.
proof fn lemma_env_put_at(
    vars: Seq<(Seq<char>, Seq<char>)>,
    name: Seq<char>,
    value: Seq<char>,
    n: int,
)
    requires
        0 <= n <= vars.len(),
        forall|i: int| 0 <= i < n ==> (#[trigger] vars[i]).0 != name,
        n < vars.len() ==> vars[n].0 == name,
    ensures
        env_put(vars, name, value) == (if n < vars.len() {
            vars.update(n, (name, value))
        } else {
            vars.push((name, value))
        }),
    decreases n,
{
    if n == 0 {
        if vars.len() > 0 {
            assert(env_put(vars, name, value) =~= vars.update(0, (name, value)));
        } else {
            assert(env_put(vars, name, value) =~= vars.push((name, value)));
        }
    } else {
        let rest = vars.drop_first();
        assert(vars[0].0 != name);
        assert forall|i: int| 0 <= i < n - 1 implies (#[trigger] rest[i]).0 != name by {
            assert(rest[i] == vars[i + 1]);
        }
        lemma_env_put_at(rest, name, value, n - 1);
        if n < vars.len() {
            assert(env_put(vars, name, value) =~= vars.update(n, (name, value)));
        } else {
            assert(env_put(vars, name, value) =~= vars.push((name, value)));
        }
    }
}

/// The place of the first entry with the name, or the number of entries.
spec fn env_place(vars: Seq<(Seq<char>, Seq<char>)>, name: Seq<char>) -> int
    decreases vars.len(),
{
    if vars.len() == 0 || vars[0].0 == name {
        0
    } else {
        1 + env_place(vars.drop_first(), name)
    }
}

/// The place is the first one with the name.
proof fn lemma_env_place(vars: Seq<(Seq<char>, Seq<char>)>, name: Seq<char>)
    ensures
        0 <= env_place(vars, name) <= vars.len(),
        forall|i: int| 0 <= i < env_place(vars, name) ==> (#[trigger] vars[i]).0 != name,
        env_place(vars, name) < vars.len() ==> vars[env_place(vars, name)].0 == name,
    decreases vars.len(),
{
    if vars.len() > 0 && vars[0].0 != name {
        let rest = vars.drop_first();
        lemma_env_place(rest, name);
        assert forall|i: int| 0 <= i < env_place(vars, name) implies (#[trigger] vars[i]).0
            != name by {
            if i > 0 {
                assert(rest[i - 1] == vars[i]);
            }
        }
    }
}

/// Changing the value of an entry changes the map at its name alone.
proof fn lemma_env_map_update(
    vars: Seq<(Seq<char>, Seq<char>)>,
    n: int,
    value: Seq<char>,
)
    requires
        names_distinct(vars),
        0 <= n < vars.len(),
    ensures
        env_map(vars.update(n, (vars[n].0, value))) == env_map(vars).insert(vars[n].0, value),
    decreases vars.len(),
{
    let name = vars[n].0;
    let changed = vars.update(n, (name, value));
    let rest = vars.drop_last();
    if n == vars.len() - 1 {
        assert(changed.drop_last() =~= rest);
        assert(env_map(changed) =~= env_map(vars).insert(name, value));
    } else {
        assert(names_distinct(rest)) by {
            assert forall|i: int, j: int| 0 <= i < j < rest.len() implies (#[trigger] rest[i]).0
                != (#[trigger] rest[j]).0 by {
                assert(vars[i].0 != vars[j].0);
            }
        }
        assert(changed.drop_last() =~= rest.update(n, (rest[n].0, value)));
        lemma_env_map_update(rest, n, value);
        assert(vars[n].0 != vars[vars.len() - 1].0);
        assert(changed.last() == vars.last());
        assert(env_map(changed) =~= env_map(vars).insert(name, value));
    }
}

/// Setting a variable keeps the names distinct, gives the name its new value
/// and leaves every other name as it was.
pub proof fn law_env_put_is_map_insert(
    vars: Seq<(Seq<char>, Seq<char>)>,
    name: Seq<char>,
    value: Seq<char>,
)
    requires
        names_distinct(vars),
    ensures
        names_distinct(env_put(vars, name, value)),
        env_map(env_put(vars, name, value)) == env_map(vars).insert(name, value),
{
    let n = env_place(vars, name);
    lemma_env_place(vars, name);
    lemma_env_put_at(vars, name, value, n);
    let put = env_put(vars, name, value);
    assert forall|i: int, j: int| 0 <= i < j < put.len() implies (#[trigger] put[i]).0 != (
    #[trigger] put[j]).0 by {
        if j < vars.len() {
            assert(vars[i].0 != vars[j].0);
        }
    }
    if n < vars.len() {
        lemma_env_map_update(vars, n, value);
    } else {
        assert(put.drop_last() =~= vars);
    }
}

/// Setting a variable twice is setting it to the second value.
pub proof fn law_env_last_value_wins(
    vars: Seq<(Seq<char>, Seq<char>)>,
    name: Seq<char>,
    first: Seq<char>,
    second: Seq<char>,
)
    ensures
        env_put(env_put(vars, name, first), name, second) == env_put(vars, name, second),
{
    let n = env_place(vars, name);
    lemma_env_place(vars, name);
    lemma_env_put_at(vars, name, first, n);
    lemma_env_put_at(vars, name, second, n);
    let once = env_put(vars, name, first);
    assert forall|i: int| 0 <= i < n implies (#[trigger] once[i]).0 != name by {
        assert(once[i] == vars[i]);
    }
    lemma_env_put_at(once, name, second, n);
    assert(env_put(once, name, second) =~= env_put(vars, name, second));
}

impl EnvVars {
    /// Every name has one value.
    #[verifier::type_invariant]
    spec fn distinct(self) -> bool {
        names_distinct(self@)
    }

    /// No variables.
    pub fn new() -> (vars: Self)
        ensures
            vars@ == Seq::<(Seq<char>, Seq<char>)>::empty(),
    {
        let vars = EnvVars { entries: Vec::new() };
        assert(vars@ =~= Seq::<(Seq<char>, Seq<char>)>::empty());
        vars
    }

    /// The number of variables, no two of which have the same name.
    pub fn len(&self) -> (count: usize)
        ensures
            count == self@.len(),
            names_distinct(self@),
    {
        proof {
            use_type_invariant(self);
        }
        self.entries.len()
    }

    /// The name and the value of the variable at `index`.
    pub fn entry(&self, index: usize) -> (entry: (&str, &str))
        requires
            index < self@.len(),
        ensures
            (entry.0@, entry.1@) == self@[index as int],
    {
        (self.entries[index].0.as_str(), self.entries[index].1.as_str())
    }

    /// The value of `name`, where it is set.
    pub fn get(&self, name: &str) -> (value: Option<&str>)
        ensures
            match value {
                Some(v) => env_map(self@).contains_key(name@) && env_map(self@)[name@] == v@,
                None => !env_map(self@).contains_key(name@),
            },
    {
        let ghost all = self@;
        let mut end: usize = self.entries.len();
        assert(all.take(end as int) =~= all);
        while end > 0
            invariant
                end <= self.entries@.len(),
                all == self@,
                env_map(all).contains_key(name@) == env_map(all.take(end as int)).contains_key(
                    name@,
                ),
                env_map(all).contains_key(name@) ==> env_map(all)[name@] == env_map(
                    all.take(end as int),
                )[name@],
            decreases end,
        {
            assert(all.take(end as int).drop_last() =~= all.take(end - 1));
            assert(all.take(end as int).last() == all[end - 1]);
            if text::same_text(self.entries[end - 1].0.as_str(), name) {
                return Some(self.entries[end - 1].1.as_str());
            }
            end = end - 1;
        }
        None
    }

    /// Sets `name` to `value`.
    pub fn insert(&mut self, name: String, value: String)
        ensures
            final(self)@ == env_put(old(self)@, name@, value@),
            env_map(final(self)@) == env_map(old(self)@).insert(name@, value@),
    {
        proof {
            use_type_invariant(&*self);
            law_env_put_is_map_insert(self@, name@, value@);
        }
        let ghost all = self@;
        let mut entries: Vec<(String, String)> = Vec::new();
        std::mem::swap(&mut entries, &mut self.entries);
        let total: usize = entries.len();
        let mut place: usize = 0;
        while place < total && !text::same_text(entries[place].0.as_str(), name.as_str())
            invariant
                place <= total,
                total == entries@.len(),
                all == entry_views(entries@),
                forall|j: int| 0 <= j < place ==> (#[trigger] all[j]).0 != name@,
            ensures
                place < total ==> all[place as int].0 == name@,
            decreases total - place,
        {
            place = place + 1;
        }
        proof {
            lemma_env_put_at(all, name@, value@, place as int);
        }
        if place < total {
            entries.set(place, (name, value));
        } else {
            entries.push((name, value));
        }
        assert(entry_views(entries@) =~= env_put(all, name@, value@));
        self.entries = entries;
    }
}

impl Clone for EnvVars {
    fn clone(&self) -> (twin: Self)
        ensures
            twin@ == self@,
    {
        proof {
            use_type_invariant(self);
        }
        let mut entries: Vec<(String, String)> = Vec::new();
        let mut i: usize = 0;
        while i < self.entries.len()
            invariant
                i <= self.entries@.len(),
                entry_views(entries@) == self@.take(i as int),
            decreases self.entries@.len() - i,
        {
            let ghost before = entries@;
            entries.push((self.entries[i].0.clone(), self.entries[i].1.clone()));
            assert(entry_views(entries@) =~= entry_views(before).push(self@[i as int]));
            assert(self@.take(i + 1) =~= self@.take(i as int).push(self@[i as int]));
            i = i + 1;
        }
        assert(self@.take(i as int) =~= self@);
        EnvVars { entries }
    }
}

impl Default for EnvVars {
    fn default() -> (vars: Self)
        ensures
            vars@ == Seq::<(Seq<char>, Seq<char>)>::empty(),
    {
        EnvVars::new()
    }
}

// ── Request ─────────────────────────────────────────────────────────

/// A request to invoke `agy`.
#[derive(Debug, Clone)]
pub struct TalosRequest {
    /// The prompt text to send to the model.
    pub prompt: String,
    /// Which Gemini model to use.
    pub model: Model,
    /// Optional project directory for `--project`.
    pub project: Option<String>,
    /// Skill file paths to load.
    pub skills: Vec<String>,
    /// Optional conversation ID for continuing a session.
    pub conversation_id: Option<String>,
    /// Environment variables forwarded to `agy` via `--env`.
    pub environment: EnvVars,
    /// Override the default timeout (in seconds).
    pub timeout_override: Option<u64>,
}

/// What a [`TalosRequest`] says.
pub struct RequestView {
    pub prompt: Seq<char>,
    pub model: Model,
    pub project: Option<Seq<char>>,
    pub skills: Seq<Seq<char>>,
    pub conversation_id: Option<Seq<char>>,
    pub environment: Seq<(Seq<char>, Seq<char>)>,
    pub timeout_override: Option<u64>,
}

impl View for TalosRequest {
    type V = RequestView;

    open spec fn view(&self) -> RequestView {
        RequestView {
            prompt: self.prompt@,
            model: self.model,
            project: text::option_text(self.project),
            skills: text::string_texts(self.skills@),
            conversation_id: text::option_text(self.conversation_id),
            environment: self.environment@,
            timeout_override: self.timeout_override,
        }
    }
}

/// A request with nothing but a prompt.
pub open spec fn minimal_request(prompt: Seq<char>) -> RequestView {
    RequestView {
        prompt,
        model: Model::GeminiFlash,
        project: None,
        skills: Seq::empty(),
        conversation_id: None,
        environment: Seq::empty(),
        timeout_override: None,
    }
}

impl TalosRequest {
    /// Create a minimal request with just a prompt.
    pub fn new(prompt: &str) -> (request: Self)
        ensures
            request@ == minimal_request(prompt@),
    {
        let request = Self {
            prompt: prompt.to_owned(),
            model: Model::default(),
            project: None,
            skills: Vec::new(),
            conversation_id: None,
            environment: EnvVars::new(),
            timeout_override: None,
        };
        assert(request@.skills =~= Seq::<Seq<char>>::empty());
        request
    }

    /// Set the model for this request.
    pub fn with_model(self, model: Model) -> (request: Self)
        ensures
            request@ == (RequestView { model, ..self@ }),
            request.environment == self.environment,
    {
        TalosRequest { model, ..self }
    }

    /// Set the conversation ID to resume a previous session.
    pub fn with_conversation_id(self, id: &str) -> (request: Self)
        ensures
            request@ == (RequestView { conversation_id: Some(id@), ..self@ }),
            request.environment == self.environment,
    {
        TalosRequest { conversation_id: Some(id.to_owned()), ..self }
    }

    /// Set the project directory.
    pub fn with_project(self, project: &str) -> (request: Self)
        ensures
            request@ == (RequestView { project: Some(project@), ..self@ }),
            request.environment == self.environment,
    {
        TalosRequest { project: Some(project.to_owned()), ..self }
    }

    /// Set the timeout override in seconds.
    pub fn with_timeout(self, seconds: u64) -> (request: Self)
        ensures
            request@ == (RequestView { timeout_override: Some(seconds), ..self@ }),
            request.environment == self.environment,
    {
        TalosRequest { timeout_override: Some(seconds), ..self }
    }

    /// Add an environment variable.
    pub fn with_env(self, key: &str, value: &str) -> (request: Self)
        ensures
            request@ == (RequestView {
                environment: env_put(self@.environment, key@, value@),
                ..self@
            }),
            env_map(request@.environment) == env_map(self@.environment).insert(key@, value@),
    {
        let mut environment = self.environment;
        environment.insert(key.to_owned(), value.to_owned());
        TalosRequest { environment, ..self }
    }

    /// Resolve the model name, using the string representation.
    pub fn model_name(&self) -> (name: &str)
        ensures
            name@ == self@.model.flag(),
    {
        self.model.as_str()
    }
}

} // verus!
