//! The debug configurations that the helper tools write for the editor.

use vstd::prelude::*;

verus! {

/// One debug configuration.
#[derive(Debug, Clone)]
pub struct AdapterConfig {
    pub label: String,
    pub adapter: String,
    pub request: String,
    pub program: String,
    pub cwd: String,
    pub debugserver_port: u16,
}

/// The file of debug configurations.
#[derive(Debug)]
pub struct DebugJson {
    pub version: String,
    pub configurations: Vec<AdapterConfig>,
}

/// How a debug session starts.
#[derive(Debug, Clone, Copy, PartialEq, Eq, Structural)]
pub enum RequestKind {
    Launch,
    Attach,
}

impl RequestKind {
    /// The name of the request kind in a configuration.
    pub fn as_str(&self) -> (name: &'static str)
        ensures
            name@ == match self {
                RequestKind::Launch => "launch"@,
                RequestKind::Attach => "attach"@,
            },
    {
        match self {
            RequestKind::Launch => "launch",
            RequestKind::Attach => "attach",
        }
    }
}

/// The version that a file of configurations has where it names none.
pub fn default_version() -> (version: String)
    ensures
        version@ == "0.2.0"@,
{
    "0.2.0".to_owned()
}

impl Default for DebugJson {
    /// A file of the default version, without configurations.
    fn default() -> (json: DebugJson)
        ensures
            json.version@ == "0.2.0"@,
            json.configurations@.len() == 0,
    {
        DebugJson { version: default_version(), configurations: Vec::new() }
    }
}

/// The place of the first configuration labelled `label`, or the length of
/// the list where there is none.
pub open spec fn first_labelled(configs: Seq<AdapterConfig>, label: Seq<char>) -> int
    decreases configs.len(),
{
    if configs.len() == 0 {
        0
    } else if configs[0].label@ == label {
        0
    } else {
        1 + first_labelled(configs.drop_first(), label)
    }
}

/// The list after `entry` is put in: in place of the first configuration
/// with its label, or at the end where no configuration has it.
pub open spec fn upserted(configs: Seq<AdapterConfig>, entry: AdapterConfig) -> Seq<AdapterConfig> {
    let at = first_labelled(configs, entry.label@);
    if 0 <= at < configs.len() {
        configs.update(at, entry)
    } else {
        configs.push(entry)
    }
}

proof fn lemma_first_labelled(configs: Seq<AdapterConfig>, label: Seq<char>, at: int)
    requires
        0 <= at <= configs.len(),
        forall|k: int| 0 <= k < at ==> configs[k].label@ != label,
        at < configs.len() ==> configs[at].label@ == label,
    ensures
        first_labelled(configs, label) == at,
    decreases at,
{
    if at > 0 {
        let tail = configs.drop_first();
        assert forall|k: int| 0 <= k < at - 1 implies tail[k].label@ != label by {
            assert(tail[k] == configs[k + 1]);
        }
        lemma_first_labelled(tail, label, at - 1);
    }
}

/// Puts `entry` into `configs`: in place of the first configuration with
/// its label, or at the end.
pub fn upsert_configuration(configs: &mut Vec<AdapterConfig>, entry: AdapterConfig)
    ensures
        final(configs)@ == upserted(old(configs)@, entry),
{
    let mut i: usize = 0;
    let mut found = false;
    while !found && i < configs.len()
        invariant
            i <= configs.len(),
            configs@ == old(configs)@,
            forall|k: int| 0 <= k < i ==> configs@[k].label@ != entry.label@,
            found ==> i < configs.len() && configs@[i as int].label@ == entry.label@,
        decreases configs.len() - i + if found { 0int } else { 1int },
    {
        if configs[i].label == entry.label {
            found = true;
        } else {
            i += 1;
        }
    }
    proof {
        lemma_first_labelled(configs@, entry.label@, i as int);
    }
    if found {
        configs[i] = entry;
    } else {
        configs.push(entry);
    }
}

} // verus!
