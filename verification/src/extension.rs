//! What the editor's extension decides: which adapter it serves, which
//! binary it starts, and the configuration it hands to the adapter.

use vstd::prelude::*;
use vstd::string::StringExecFns;
use crate::cli::RequestKind;
use crate::hex::{decimal, push_decimal};
use crate::json::{
    array, bool_member, json_bool, json_kind_at, json_optional, json_string, json_text_at,
    kind_at, member, object, optional_member, quote, text_at, text_member, write_array,
    write_member, write_object,
};
use crate::text::{chars_of, is_word, text_of, texts};

verus! {

/// The extension itself, which has no state.
#[derive(Debug, Clone, Copy, PartialEq, Eq, Structural)]
pub struct IosLldbExtension;

/// The name of the adapter that the extension serves.
pub const ADAPTER_NAME: &'static str = "ios-lldb";

/// The name of the environment variable through which the adapter gets its
/// configuration.
pub const CONFIG_ENV_VAR: &'static str = "IOS_LLDB_DAP_CONFIG";

/// The views of an environment.
pub open spec fn env_view(env: Seq<(String, String)>) -> Seq<(Seq<char>, Seq<char>)> {
    env.map_values(|pair: (String, String)| (pair.0@, pair.1@))
}

/// The view of a result that is a message or nothing.
pub open spec fn refusal(r: Result<(), String>) -> Option<Seq<char>> {
    match r {
        Ok(_) => None,
        Err(m) => Some(m@),
    }
}

/// Accepts the adapter that the extension serves and refuses any other.
pub fn ensure_adapter(adapter: &str) -> (accepted: Result<(), String>)
    ensures
        refusal(accepted) == if adapter@ == ADAPTER_NAME@ {
            None
        } else {
            Some("unsupported adapter: "@ + adapter@)
        },
{
    let chars = chars_of(adapter);
    if is_word(chars.as_slice(), ADAPTER_NAME) {
        Ok(())
    } else {
        Err("unsupported adapter: ".to_owned().concat(adapter))
    }
}

/// The view of a result that holds text or a message.
pub open spec fn answer(r: Result<String, String>) -> Result<Seq<char>, Seq<char>> {
    match r {
        Ok(v) => Ok(v@),
        Err(m) => Err(m@),
    }
}

/// The binary to start: the one that the user names or else the one that
/// was found on the search path, given as `found`.
pub fn resolve_binary_path(found: Option<String>, user_path: Option<String>) -> (path: Result<
    String,
    String,
>)
    ensures
        answer(path) == match (text_of(user_path), text_of(found)) {
            (Some(p), _) => Ok::<Seq<char>, Seq<char>>(p),
            (None, Some(p)) => Ok(p),
            (None, None) => Err("unable to find `"@ + ADAPTER_NAME@ + "` on PATH"@),
        },
{
    match user_path {
        Some(path) => Ok(path),
        None => match found {
            Some(path) => Ok(path),
            None => {
                let mut message = "unable to find `".to_owned();
                message.append(ADAPTER_NAME);
                message.append("` on PATH");
                Err(message)
            },
        },
    }
}

/// The place of the first variable named `key`, or the length of the
/// environment where there is none.
pub open spec fn first_named(env: Seq<(Seq<char>, Seq<char>)>, key: Seq<char>) -> int
    decreases env.len(),
{
    if env.len() == 0 {
        0
    } else if env[0].0 == key {
        0
    } else {
        1 + first_named(env.drop_first(), key)
    }
}

/// The environment after `key` is set to `value`: in place, where the
/// environment has the variable, else at the end.
pub open spec fn env_with(
    env: Seq<(Seq<char>, Seq<char>)>,
    key: Seq<char>,
    value: Seq<char>,
) -> Seq<(Seq<char>, Seq<char>)> {
    let at = first_named(env, key);
    if 0 <= at < env.len() {
        env.update(at, (key, value))
    } else {
        env.push((key, value))
    }
}

proof fn lemma_first_named(env: Seq<(Seq<char>, Seq<char>)>, key: Seq<char>, at: int)
    requires
        0 <= at <= env.len(),
        forall|k: int| 0 <= k < at ==> env[k].0 != key,
        at < env.len() ==> env[at].0 == key,
    ensures
        first_named(env, key) == at,
    decreases at,
{
    if at > 0 {
        let tail = env.drop_first();
        assert forall|k: int| 0 <= k < at - 1 implies tail[k].0 != key by {
            assert(tail[k] == env[k + 1]);
        }
        lemma_first_named(tail, key, at - 1);
    }
}

/// Sets the variable `key` of `env` to `value`.
pub fn upsert_env(env: &mut Vec<(String, String)>, key: &str, value: String)
    ensures
        env_view(final(env)@) == env_with(env_view(old(env)@), key@, value@),
{
    let name = key.to_owned();
    let mut i: usize = 0;
    let mut found = false;
    while !found && i < env.len()
        invariant
            i <= env.len(),
            env@ == old(env)@,
            name@ == key@,
            forall|k: int| 0 <= k < i ==> env_view(env@)[k].0 != key@,
            found ==> i < env.len() && env_view(env@)[i as int].0 == key@,
        decreases env.len() - i + if found { 0int } else { 1int },
    {
        if env[i].0 == name {
            found = true;
        } else {
            i += 1;
        }
    }
    proof {
        lemma_first_named(env_view(env@), key@, i as int);
    }
    let ghost before = env_view(env@);
    if found {
        env[i] = (name, value);
        proof {
            assert(env_view(env@) =~= before.update(i as int, (key@, value@)));
        }
    } else {
        env.push((name, value));
        proof {
            assert(env_view(env@) =~= before.push((key@, value@)));
        }
    }
}

/// The view of a result that holds a request kind or a message.
pub open spec fn kind_answer(r: Result<RequestKind, String>) -> Result<RequestKind, Seq<char>> {
    match r {
        Ok(k) => Ok(k),
        Err(m) => Err(m@),
    }
}

/// The request kind that a configuration names: `launch` where it names
/// none, and no kind for a name other than `launch` and `attach`.
pub open spec fn request_kind_named(name: Option<Seq<char>>) -> Result<RequestKind, Seq<char>> {
    match name {
        None => Ok(RequestKind::Launch),
        Some(n) => if n == "launch"@ {
            Ok(RequestKind::Launch)
        } else if n == "attach"@ {
            Ok(RequestKind::Attach)
        } else {
            Err("unknown request kind `"@ + n + "`"@)
        },
    }
}

/// The request kind that is named by `name`, the `request` of a
/// configuration.
pub fn request_kind_of(name: Option<String>) -> (kind: Result<RequestKind, String>)
    ensures
        kind_answer(kind) == request_kind_named(text_of(name)),
{
    match name {
        None => Ok(RequestKind::Launch),
        Some(n) => {
            let chars = chars_of(n.as_str());
            if is_word(chars.as_slice(), "launch") {
                Ok(RequestKind::Launch)
            } else if is_word(chars.as_slice(), "attach") {
                Ok(RequestKind::Attach)
            } else {
                let mut message = "unknown request kind `".to_owned();
                message.append(n.as_str());
                message.append("`");
                Err(message)
            }
        },
    }
}

/// The request kind of the configuration `config`, a JSON document.
pub fn request_kind_from_config(config: &str) -> (kind: Result<RequestKind, String>)
    ensures
        kind_answer(kind) == request_kind_named(json_text_at(config@, "/request"@)),
{
    request_kind_of(text_at(config, "/request"))
}

/// The view of a result that holds an optional path or a message.
pub open spec fn program_answer(r: Result<Option<String>, String>) -> Result<
    Option<Seq<char>>,
    Seq<char>,
> {
    match r {
        Ok(p) => Ok(text_of(p)),
        Err(m) => Err(m@),
    }
}

/// The program that the configuration `raw` names: the string under
/// `program`, if there is one. A configuration that is no JSON document is
/// refused with the parser's message.
pub fn parse_program_from_config(raw: &str) -> (program: Result<Option<String>, String>)
    ensures
        program_answer(program) == match json_kind_at(raw@, ""@) {
            Err(m) => Err::<Option<Seq<char>>, Seq<char>>(m),
            Ok(_) => Ok(json_text_at(raw@, "/program"@)),
        },
{
    match kind_at(raw, "") {
        Err(m) => Err(m),
        Ok(_) => Ok(text_at(raw, "/program")),
    }
}

/// What the editor needs to start the adapter: the command, the
/// environment, and the configuration with its request kind.
#[derive(Debug)]
pub struct AdapterBinary {
    pub command: String,
    pub envs: Vec<(String, String)>,
    pub configuration: String,
    pub request: RequestKind,
}

/// An `AdapterBinary` over views.
pub struct AdapterBinaryView {
    pub command: Seq<char>,
    pub envs: Seq<(Seq<char>, Seq<char>)>,
    pub configuration: Seq<char>,
    pub request: RequestKind,
}

impl View for AdapterBinary {
    type V = AdapterBinaryView;

    open spec fn view(&self) -> AdapterBinaryView {
        AdapterBinaryView {
            command: self.command@,
            envs: env_view(self.envs@),
            configuration: self.configuration@,
            request: self.request,
        }
    }
}

/// The view of a result that holds an adapter binary or a message.
pub open spec fn binary_answer(r: Result<AdapterBinary, String>) -> Result<
    AdapterBinaryView,
    Seq<char>,
> {
    match r {
        Ok(b) => Ok(b@),
        Err(m) => Err(m@),
    }
}

/// What starts the adapter for the configuration `config`: the
/// configuration must be a JSON document that names a known request kind,
/// and a binary must be there; the environment is the shell's, with the
/// configuration in it.
pub open spec fn adapter_binary_for(
    config: Seq<char>,
    user_path: Option<Seq<char>>,
    found: Option<Seq<char>>,
    env: Seq<(Seq<char>, Seq<char>)>,
) -> Result<AdapterBinaryView, Seq<char>> {
    match json_kind_at(config, ""@) {
        Err(m) => Err("invalid config: "@ + m),
        Ok(_) => match request_kind_named(json_text_at(config, "/request"@)) {
            Err(m) => Err(m),
            Ok(request) => match (user_path, found) {
                (None, None) => Err("unable to find `"@ + ADAPTER_NAME@ + "` on PATH"@),
                (Some(command), _) | (None, Some(command)) => Ok(
                    AdapterBinaryView {
                        command,
                        envs: env_with(env, CONFIG_ENV_VAR@, config),
                        configuration: config,
                        request,
                    },
                ),
            },
        },
    }
}

/// What starts the adapter for the configuration `config`. `found` is the
/// adapter as found on the search path, `env` the environment of the shell.
pub fn build_debug_adapter_binary(
    config: &str,
    user_path: Option<String>,
    found: Option<String>,
    env: Vec<(String, String)>,
) -> (binary: Result<AdapterBinary, String>)
    ensures
        binary_answer(binary) == adapter_binary_for(
            config@,
            text_of(user_path),
            text_of(found),
            env_view(env@),
        ),
{
    match kind_at(config, "") {
        Err(m) => {
            return Err("invalid config: ".to_owned().concat(m.as_str()));
        },
        Ok(_) => {},
    }
    let request = match request_kind_from_config(config) {
        Ok(kind) => kind,
        Err(m) => {
            return Err(m);
        },
    };
    let command = match resolve_binary_path(found, user_path) {
        Ok(command) => command,
        Err(m) => {
            return Err(m);
        },
    };
    let mut envs = env;
    upsert_env(&mut envs, CONFIG_ENV_VAR, config.to_owned());
    Ok(AdapterBinary { command, envs, configuration: config.to_owned(), request })
}

/// How a debug session is to start, as the editor describes it.
#[derive(Debug)]
pub enum DebugRequest {
    Launch { program: String, cwd: Option<String>, args: Vec<String>, envs: Vec<(String, String)> },
    Attach { process_id: Option<u32> },
}

/// A debug configuration, as the editor describes it.
#[derive(Debug)]
pub struct DebugConfig {
    pub label: String,
    pub adapter: String,
    pub request: DebugRequest,
    pub stop_on_entry: Option<bool>,
}

/// A debug scenario: a label, the adapter, and the adapter's configuration
/// as JSON.
#[derive(Debug)]
pub struct DebugScenario {
    pub label: String,
    pub adapter: String,
    pub config: String,
}

/// The JSON object that `serde_json` writes for an environment: one member
/// for each name, in the order of the names, with the value that comes last
/// for a name.
pub uninterp spec fn env_object_json(env: Seq<(Seq<char>, Seq<char>)>) -> Seq<char>;

/// Collects an environment into a `serde_json::Map` and writes it with
/// `serde_json::Value::to_string`.
#[verifier::external_body]
fn env_list_to_value(envs: &Vec<(String, String)>) -> (out: String)
    ensures
        out@ == env_object_json(env_view(envs@)),
{
    let map = envs.iter().cloned().map(|(k, v)| (k, serde_json::Value::String(v))).collect::<
        serde_json::Map<_, _>,
    >();
    serde_json::Value::Object(map).to_string()
}

/// The views of a list of strings, each as a JSON string.
pub open spec fn quoted_all(items: Seq<String>) -> Seq<Seq<char>> {
    items.map_values(|s: String| json_string(s@))
}

/// The configuration of the adapter for a request, as JSON. The port of
/// the debug server is 0: the adapter is told of it later.
pub open spec fn scenario_config(
    request: DebugRequest,
    stop_on_entry: Option<bool>,
) -> Seq<char> {
    let stop = match stop_on_entry {
        Some(b) => b,
        None => false,
    };
    match request {
        DebugRequest::Launch { program, cwd, args, envs } => object(
            seq![
                member("args"@, array(quoted_all(args@))),
                member("cwd"@, json_optional(text_of(cwd))),
                member("debugserverPort"@, "0"@),
                member("env"@, env_object_json(env_view(envs@))),
                member("program"@, json_string(program@)),
                member("request"@, json_string("launch"@)),
                member("stopOnEntry"@, json_bool(stop)),
            ],
        ),
        DebugRequest::Attach { process_id } => object(
            seq![
                member("debugserverPort"@, "0"@),
                member(
                    "processId"@,
                    match process_id {
                        Some(id) => decimal(id as nat),
                        None => "null"@,
                    },
                ),
                member("request"@, json_string("attach"@)),
                member("stopOnEntry"@, json_bool(stop)),
            ],
        ),
    }
}

/// The debug scenario for a configuration of the editor.
pub fn convert_debug_config(config: DebugConfig) -> (scenario: Result<DebugScenario, String>)
    ensures
        scenario matches Ok(s) && s.label@ == config.label@ && s.adapter@ == ADAPTER_NAME@
            && s.config@ == scenario_config(config.request, config.stop_on_entry),
{
    let DebugConfig { label, adapter, request, stop_on_entry } = config;
    let stop = match stop_on_entry {
        Some(b) => b,
        None => false,
    };
    let mut members: Vec<String> = Vec::new();
    match &request {
        DebugRequest::Launch { program, cwd, args, envs } => {
            let mut items: Vec<String> = Vec::new();
            let mut i: usize = 0;
            while i < args.len()
                invariant
                    i <= args.len(),
                    items@.len() == i,
                    forall|k: int| 0 <= k < i ==> (#[trigger] items@[k])@ == json_string(args@[k]@),
                decreases args.len() - i,
            {
                items.push(quote(args[i].as_str()));
                i += 1;
            }
            proof {
                assert(texts(items@) =~= quoted_all(args@));
            }
            members.push(write_member("args", write_array(items.as_slice()).as_str()));
            members.push(optional_member("cwd", cwd));
            members.push(write_member("debugserverPort", "0"));
            members.push(write_member("env", env_list_to_value(envs).as_str()));
            members.push(text_member("program", program.as_str()));
            members.push(text_member("request", "launch"));
            members.push(bool_member("stopOnEntry", stop));
            proof {
                assert(texts(members@) =~= seq![
                    member("args"@, array(quoted_all(args@))),
                    member("cwd"@, json_optional(text_of(*cwd))),
                    member("debugserverPort"@, "0"@),
                    member("env"@, env_object_json(env_view(envs@))),
                    member("program"@, json_string(program@)),
                    member("request"@, json_string("launch"@)),
                    member("stopOnEntry"@, json_bool(stop)),
                ]);
                assert(object(texts(members@)) == scenario_config(request, stop_on_entry));
            }
        },
        DebugRequest::Attach { process_id } => {
            let process = match process_id {
                Some(id) => {
                    let mut digits = String::new();
                    push_decimal(&mut digits, *id as u64);
                    proof {
                        assert(Seq::<char>::empty() + decimal(*id as nat) == decimal(*id as nat));
                        assert(digits@ == decimal(*id as nat));
                    }
                    digits
                },
                None => "null".to_owned(),
            };
            assert(process@ == match *process_id {
                Some(id) => decimal(id as nat),
                None => "null"@,
            });
            members.push(write_member("debugserverPort", "0"));
            members.push(write_member("processId", process.as_str()));
            members.push(text_member("request", "attach"));
            members.push(bool_member("stopOnEntry", stop));
            proof {
                assert(texts(members@) =~= seq![
                    member("debugserverPort"@, "0"@),
                    member("processId"@, process@),
                    member("request"@, json_string("attach"@)),
                    member("stopOnEntry"@, json_bool(stop)),
                ]);
                assert(request == (DebugRequest::Attach { process_id: *process_id }));
                assert(texts(members@) =~= seq![
                    member("debugserverPort"@, "0"@),
                    member(
                        "processId"@,
                        match *process_id {
                            Some(id) => decimal(id as nat),
                            None => "null"@,
                        },
                    ),
                    member("request"@, json_string("attach"@)),
                    member("stopOnEntry"@, json_bool(stop)),
                ]);
                assert(object(texts(members@)) == scenario_config(request, stop_on_entry));
            }
        },
    }
    let config = write_object(members.as_slice());
    Ok(DebugScenario { label, adapter: ADAPTER_NAME.to_owned(), config })
}

} // verus!
