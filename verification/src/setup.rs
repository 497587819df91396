//! What the setup tool decides before it writes a debug configuration:
//! which program, which working directory and which port.

use vstd::prelude::*;
use crate::cli::{AdapterConfig, RequestKind};
use crate::extension::ADAPTER_NAME;
use crate::text::{text_of, texts};

verus! {

/// What the build tool reports of a debug session that it has set up.
#[derive(Debug)]
pub struct XcedeInfo {
    pub debugserver_port: Option<u16>,
    pub app_binary: Option<String>,
}

/// What goes into a debug configuration.
#[derive(Debug)]
pub struct SetupPlan {
    pub program: String,
    pub cwd: String,
    pub port: u16,
}

/// What goes into a debug configuration for a device: the port is the
/// local end of a forwarded connection to `remote_port` on the device.
#[derive(Debug)]
pub struct DevicePlan {
    pub program: String,
    pub cwd: String,
    pub local_port: u16,
    pub remote_port: u16,
}

/// The local port for a device where none is asked for.
pub const DEFAULT_LOCAL_PORT: u16 = 23456;

/// A plan as a value: program, working directory and port.
pub type PlanView = (Seq<char>, Seq<char>, u16);

/// The view of a result that holds a plan or a message.
pub open spec fn plan_view(r: Result<SetupPlan, String>) -> Result<PlanView, Seq<char>> {
    match r {
        Ok(p) => Ok((p.program@, p.cwd@, p.port)),
        Err(m) => Err(m@),
    }
}

/// The plan for a program on the host. `program` is the program as asked
/// for and resolved, `parent` the directory that holds it.
pub fn host_flow(
    program: Option<String>,
    parent: String,
    cwd: Option<String>,
    port: Option<u16>,
) -> (plan: Result<SetupPlan, String>)
    ensures
        plan_view(plan) == match text_of(program) {
            None => Err::<PlanView, Seq<char>>("--program is required in host mode"@),
            Some(p) => Ok(
                (
                    p,
                    match text_of(cwd) {
                        Some(c) => c,
                        None => parent@,
                    },
                    match port {
                        Some(n) => n,
                        None => 0,
                    },
                ),
            ),
        },
{
    let program = match program {
        Some(p) => p,
        None => {
            return Err("--program is required in host mode".to_owned());
        },
    };
    let cwd = match cwd {
        Some(c) => c,
        None => parent,
    };
    let port = match port {
        Some(n) => n,
        None => 0,
    };
    Ok(SetupPlan { program, cwd, port })
}

/// The message for a report of the build tool that names no binary.
pub open spec fn missing_binary() -> Seq<char> {
    "xcede output missing app_binary; pass --program manually"@
}

/// The plan for a program in the simulator: the binary that the build tool
/// reports, the working directory asked for or else the project, and the
/// port asked for or else the one reported or else 0.
pub fn sim_flow(port: Option<u16>, cwd: Option<String>, project: String, info: XcedeInfo) -> (plan:
    Result<SetupPlan, String>)
    ensures
        plan_view(plan) == match text_of(info.app_binary) {
            None => Err::<PlanView, Seq<char>>(missing_binary()),
            Some(p) => Ok(
                (
                    p,
                    match text_of(cwd) {
                        Some(c) => c,
                        None => project@,
                    },
                    match (port, info.debugserver_port) {
                        (Some(n), _) => n,
                        (None, Some(n)) => n,
                        (None, None) => 0,
                    },
                ),
            ),
        },
{
    let XcedeInfo { debugserver_port, app_binary } = info;
    let program = match app_binary {
        Some(p) => p,
        None => {
            return Err("xcede output missing app_binary; pass --program manually".to_owned());
        },
    };
    let cwd = match cwd {
        Some(c) => c,
        None => project,
    };
    let port = match port {
        Some(n) => n,
        None => match debugserver_port {
            Some(n) => n,
            None => 0,
        },
    };
    Ok(SetupPlan { program, cwd, port })
}

/// The local port for a device: the one asked for, or else the default.
pub fn device_local_port(port: Option<u16>) -> (local: u16)
    ensures
        local == match port {
            Some(n) => n,
            None => DEFAULT_LOCAL_PORT,
        },
{
    match port {
        Some(n) => n,
        None => DEFAULT_LOCAL_PORT,
    }
}

/// The plan for a program on a device: as in the simulator, but with the
/// local port in the configuration, forwarded to the port that the build
/// tool reports or else to `device_port`.
pub fn device_flow(
    port: Option<u16>,
    cwd: Option<String>,
    project: String,
    device_port: u16,
    info: XcedeInfo,
) -> (plan: Result<DevicePlan, String>)
    ensures
        match plan {
            Err(m) => info.app_binary is None && m@ == missing_binary(),
            Ok(p) => {
                &&& text_of(info.app_binary) == Some(p.program@)
                &&& p.cwd@ == match text_of(cwd) {
                    Some(c) => c,
                    None => project@,
                }
                &&& p.local_port == match port {
                    Some(n) => n,
                    None => DEFAULT_LOCAL_PORT,
                }
                &&& p.remote_port == match info.debugserver_port {
                    Some(n) => n,
                    None => device_port,
                }
            },
        },
{
    let XcedeInfo { debugserver_port, app_binary } = info;
    let program = match app_binary {
        Some(p) => p,
        None => {
            return Err("xcede output missing app_binary; pass --program manually".to_owned());
        },
    };
    let cwd = match cwd {
        Some(c) => c,
        None => project,
    };
    let remote_port = match debugserver_port {
        Some(n) => n,
        None => device_port,
    };
    Ok(DevicePlan { program, cwd, local_port: device_local_port(port), remote_port })
}

/// The configuration that is written for a plan.
pub fn emit_config(label: String, request: RequestKind, program: String, cwd: String, port: u16) -> (entry:
    AdapterConfig)
    ensures
        entry.label@ == label@,
        entry.adapter@ == ADAPTER_NAME@,
        entry.request@ == match request {
            RequestKind::Launch => "launch"@,
            RequestKind::Attach => "attach"@,
        },
        entry.program@ == program@,
        entry.cwd@ == cwd@,
        entry.debugserver_port == port,
{
    AdapterConfig {
        label,
        adapter: ADAPTER_NAME.to_owned(),
        request: request.as_str().to_owned(),
        program,
        cwd,
        debugserver_port: port,
    }
}

/// The view of a result that holds arguments or a message.
pub open spec fn arguments_view(r: Result<Vec<String>, String>) -> Result<
    Seq<Seq<char>>,
    Seq<char>,
> {
    match r {
        Ok(v) => Ok(texts(v@)),
        Err(m) => Err(m@),
    }
}

/// The arguments with which the build tool is run: the scheme, which must
/// be given, the project, and whatever else was asked for.
pub fn run_xcede(scheme: Option<String>, project: String, extra: Vec<String>) -> (arguments:
    Result<Vec<String>, String>)
    ensures
        arguments_view(arguments) == match text_of(scheme) {
            None => Err::<Seq<Seq<char>>, Seq<char>>(
                "--scheme is required for simulator/device modes"@,
            ),
            Some(s) => Ok(
                seq!["debug-session"@, "--scheme"@, s, "--project"@, project@] + texts(extra@),
            ),
        },
{
    let scheme = match scheme {
        Some(s) => s,
        None => {
            return Err("--scheme is required for simulator/device modes".to_owned());
        },
    };
    let mut arguments: Vec<String> = Vec::new();
    arguments.push("debug-session".to_owned());
    arguments.push("--scheme".to_owned());
    arguments.push(scheme);
    arguments.push("--project".to_owned());
    arguments.push(project);
    let ghost head = texts(arguments@);
    let mut extra = extra;
    let ghost tail = texts(extra@);
    arguments.append(&mut extra);
    proof {
        assert(texts(arguments@) =~= head + tail);
        assert(head =~= seq!["debug-session"@, "--scheme"@, scheme@, "--project"@, project@]);
    }
    Ok(arguments)
}

} // verus!
