//! What holds of requests, and of the paths and messages that are built from
//! what they hold.

use vstd::prelude::*;
use vstd::string::*;
use vstd::utf8::*;

use crate::error::TalosError;
use crate::paths;
use crate::paths::PathView;
use crate::pid_guard;
use crate::pid_guard::PidRecord;
use crate::request;
use crate::request::{Model, TalosRequest};
use crate::text;

verus! {

// ── Requests ────────────────────────────────────────────────────────

/// What a request says is what its fields hold.
pub proof fn law_request_view(request: TalosRequest)
    ensures
        request@.prompt == request.prompt@,
        request@.model == request.model,
        request@.project == (match request.project {
            Some(s) => Some(s@),
            None => None,
        }),
        request@.skills.len() == request.skills@.len(),
        forall|i: int| 0 <= i < request.skills@.len() ==> #[trigger] request@.skills[i]
            == request.skills@[i]@,
        request@.conversation_id == (match request.conversation_id {
            Some(s) => Some(s@),
            None => None,
        }),
        request@.environment == request.environment@,
        request@.timeout_override == request.timeout_override,
{
}

/// A request with nothing but a prompt has that prompt, and asks for nothing.
pub proof fn law_minimal_request(prompt: Seq<char>)
    ensures
        request::minimal_request(prompt).prompt == prompt,
        request::minimal_request(prompt).model == Model::GeminiFlash,
        request::minimal_request(prompt).project is None,
        request::minimal_request(prompt).skills.len() == 0,
        request::minimal_request(prompt).conversation_id is None,
        request::minimal_request(prompt).environment.len() == 0,
        request::minimal_request(prompt).timeout_override is None,
{
}

/// Each model is called by its documented name.
pub proof fn law_model_names(model: Model)
    ensures
        model.flag() == (match model {
            Model::GeminiFlash => "gemini-flash-agent"@,
            Model::GeminiPro => "gemini-pro-agent"@,
            Model::GeminiFlashLite => "gemini-flash-lite-agent"@,
        }),
{
}

// ── Environments ────────────────────────────────────────────────────

/// A new variable goes to the end, and one that is set already keeps its
/// place; every other variable stays where and what it is.
pub proof fn law_variables_keep_their_place(
    vars: Seq<(Seq<char>, Seq<char>)>,
    name: Seq<char>,
    value: Seq<char>,
    n: int,
)
    requires
        0 <= n <= vars.len(),
        forall|i: int| 0 <= i < n ==> (#[trigger] vars[i]).0 != name,
        n < vars.len() ==> vars[n].0 == name,
    ensures
        request::env_put(vars, name, value) == vars.take(n) + seq![(name, value)] + vars.skip(
            if n < vars.len() {
                n + 1
            } else {
                n
            },
        ),
    decreases n,
{
    let put = request::env_put(vars, name, value);
    if n == 0 {
        if vars.len() > 0 {
            assert(put =~= vars.take(0) + seq![(name, value)] + vars.skip(1));
        } else {
            assert(put =~= vars.take(0) + seq![(name, value)] + vars.skip(0));
        }
    } else {
        let rest = vars.drop_first();
        assert(vars[0].0 != name);
        assert forall|i: int| 0 <= i < n - 1 implies (#[trigger] rest[i]).0 != name by {
            assert(rest[i] == vars[i + 1]);
        }
        law_variables_keep_their_place(rest, name, value, n - 1);
        let end = if n < vars.len() {
            n + 1
        } else {
            n
        };
        assert(put =~= vars.take(n) + seq![(name, value)] + vars.skip(end));
    }
}

/// Names are distinct where no two places hold the same one.
pub proof fn law_distinct_names(vars: Seq<(Seq<char>, Seq<char>)>, i: int, j: int)
    requires
        0 <= i < vars.len(),
        0 <= j < vars.len(),
        i != j,
        vars[i].0 == vars[j].0,
    ensures
        !request::names_distinct(vars),
{
    if i < j {
        assert(vars[i].0 == vars[j].0);
    } else {
        assert(vars[j].0 == vars[i].0);
    }
}

/// The values of names are those of the variables; the last one of a name
/// counts.
pub proof fn law_values_of_names(
    vars: Seq<(Seq<char>, Seq<char>)>,
    name: Seq<char>,
    value: Seq<char>,
)
    ensures
        request::env_map(Seq::empty()) == Map::<Seq<char>, Seq<char>>::empty(),
        request::env_map(vars + seq![(name, value)]) == request::env_map(vars).insert(name, value),
{
    assert((vars + seq![(name, value)]).drop_last() =~= vars);
}

// ── Paths ───────────────────────────────────────────────────────────

/// Where the separator is the slash, a text names the path of its bytes, and
/// an absolute part replaces the path that it is joined to.
pub proof fn law_absolute_parts_replace(path: PathView, part: Seq<char>, name: Seq<char>)
    requires
        part.len() > 0 && part[0] == '/',
    ensures
        path.joined(part).slashed() == encode_utf8(part),
        paths::text_path(name).slashed() == encode_utf8(name),
{
    paths::lemma_slashed_joined(path, part);
    let code = '/' as u32;
    assert((code & 0x7f) as u8 == 47) by (bit_vector)
        requires
            code == 47,
    ;
    assert(encode_utf8(part)[0] == encode_scalar(code)[0]);
}

/// Where the separator is the slash, a relative part stands behind the path and
/// one separator, which the path may bring with it.
pub proof fn law_relative_parts_follow(path: PathView, part: Seq<char>)
    requires
        part.len() > 0 && part[0] != '/',
    ensures
        ({
            let dir = path.slashed();
            path.joined(part).slashed() == (if dir.len() == 0 || dir.last() == paths::SLASH {
                dir
            } else {
                dir + seq![47u8]
            }) + encode_utf8(part)
        }),
{
    paths::lemma_slashed_joined(path, part);
    paths::law_join_stays_below(path, part);
    paths::lemma_relative_bytes(part);
}

/// What is joined is what was joined before and then the part.
pub proof fn law_joined_parts(path: PathView, part: Seq<char>)
    ensures
        path.joined(part).base == path.base,
        path.joined(part).parts == path.parts + seq![part],
        paths::text_path(part).base == encode_utf8(part),
        paths::text_path(part).parts.len() == 0,
        paths::SLASH == 47,
{
    assert(path.parts.push(part) =~= path.parts + seq![part]);
}

/// What optional paths and several paths hold is what each holds.
pub proof fn law_path_views(path: paths::FilePath, several: Seq<paths::FilePath>, i: int)
    ensures
        paths::option_path(Some(path)) == Some(path@),
        paths::option_path(None) is None,
        paths::path_views(several).len() == several.len(),
        0 <= i < several.len() ==> paths::path_views(several)[i] == several[i]@,
{
}

// ── Records of processes ────────────────────────────────────────────

/// The record of a process lies in its own file below the home directory and
/// says which conversation it serves; there is none without a home directory.
pub proof fn law_records_say_the_conversation(home: PathView, pid: u32, conv_id: Seq<char>)
    ensures
        pid_guard::pid_record(Some(home), pid, conv_id) matches Some(record) && record.content
            == conv_id && record.dir == home.joined(".talos"@).joined("pid_map"@) && record.file
            == record.dir.joined(text::decimal(pid as nat)),
        pid_guard::pid_record(None, pid, conv_id) is None,
        pid_guard::pid_file(None, pid) is None,
{
}

/// What a record says is what its fields hold.
pub proof fn law_record_view(record: PidRecord)
    ensures
        record@.dir == record.dir@,
        record@.file == record.file@,
        record@.content == record.content@,
        pid_guard::record_view(Some(record)) == Some(record@),
        pid_guard::record_view(None) is None,
{
}

// ── Messages ────────────────────────────────────────────────────────

/// The message of an error ends with its cause, behind what kind of error it
/// is, and no other text is its message.
pub proof fn law_messages_end_with_the_cause(
    what: String,
    path: String,
    exit_code: i32,
    stderr: String,
    shown: Seq<char>,
)
    ensures
        TalosError::ParseError(what).displays(shown) <==> shown == "parse error: "@ + what@,
        TalosError::ConfigError(what).displays(shown) <==> shown == "configuration error: "@
            + what@,
        (TalosError::TranscriptNotFound { path }).displays(shown) <==> shown
            == "transcript not found at: "@ + path@,
        (TalosError::ProcessFailed { exit_code, stderr }).displays(shown) <==> shown
            == "agy process failed (exit code "@ + text::signed_decimal(exit_code as int) + "): "@
            + stderr@,
{
}

/// The message of an I/O error ends with what its cause displays, and errors
/// without a cause have one message each.
pub proof fn law_other_messages(error: std::io::Error, shown: Seq<char>)
    ensures
        TalosError::IoError(error).displays(shown) <==> (exists|cause: String| #[trigger]
            to_string_from_display_ensures(&error, cause) && shown == "I/O error: "@ + cause@),
        TalosError::AgyNotFound.displays(shown) <==> shown
            == "agy binary not found — ensure it is installed and on $PATH"@,
        TalosError::Timeout.displays(shown) <==> shown
            == "agy invocation timed out after the configured duration"@,
        TalosError::ConcurrencyLimit.displays(shown) <==> shown
            == "concurrency limit reached — too many concurrent invocations"@,
{
    let failed = TalosError::IoError(error);
    if exists|cause: String| #[trigger]
        to_string_from_display_ensures(&error, cause) && shown == "I/O error: "@ + cause@ {
        let cause = choose|cause: String| #[trigger]
            to_string_from_display_ensures(&error, cause) && shown == "I/O error: "@ + cause@;
        let inner = failed->IoError_0;
        assert(to_string_from_display_ensures(&inner, cause));
        assert(failed.displays(shown));
    }
}

} // verus!
