use ios_lldb_dap::cli::{default_version, upsert_configuration, AdapterConfig, DebugJson, RequestKind};
use ios_lldb_dap::extension::{
    build_debug_adapter_binary, convert_debug_config, ensure_adapter, parse_program_from_config,
    request_kind_from_config, resolve_binary_path, upsert_env, DebugConfig, DebugRequest,
    ADAPTER_NAME, CONFIG_ENV_VAR,
};
use ios_lldb_dap::setup::{device_flow, emit_config, host_flow, run_xcede, sim_flow, XcedeInfo};

fn entry(label: &str, port: u16) -> AdapterConfig {
    AdapterConfig {
        label: label.into(),
        adapter: "ios-lldb".into(),
        request: "attach".into(),
        program: "/bin/app".into(),
        cwd: "/tmp".into(),
        debugserver_port: port,
    }
}

fn labels(configs: &[AdapterConfig]) -> Vec<(String, u16)> {
    configs.iter().map(|c| (c.label.clone(), c.debugserver_port)).collect()
}

#[test]
fn upsert_replaces_the_first_entry_with_the_label() {
    let mut configs = vec![entry("a", 1), entry("b", 2), entry("a", 3)];
    upsert_configuration(&mut configs, entry("a", 9));
    assert_eq!(labels(&configs), vec![("a".into(), 9), ("b".into(), 2), ("a".into(), 3)]);
    upsert_configuration(&mut configs, entry("b", 8));
    assert_eq!(labels(&configs), vec![("a".into(), 9), ("b".into(), 8), ("a".into(), 3)]);
}

#[test]
fn upsert_appends_an_entry_with_a_new_label() {
    let mut configs = Vec::new();
    upsert_configuration(&mut configs, entry("a", 1));
    upsert_configuration(&mut configs, entry("b", 2));
    assert_eq!(labels(&configs), vec![("a".into(), 1), ("b".into(), 2)]);
}

#[test]
fn the_default_file_has_the_default_version() {
    assert_eq!(default_version(), "0.2.0");
    let json = DebugJson::default();
    assert_eq!(json.version, "0.2.0");
    assert!(json.configurations.is_empty());
}

#[test]
fn request_kinds_have_names() {
    assert_eq!(RequestKind::Launch.as_str(), "launch");
    assert_eq!(RequestKind::Attach.as_str(), "attach");
}

#[test]
fn dap_request_kind_uses_request_field() {
    assert_eq!(
        request_kind_from_config(r#"{"request":"launch"}"#).unwrap(),
        RequestKind::Launch
    );
    assert_eq!(
        request_kind_from_config(r#"{"request":"attach"}"#).unwrap(),
        RequestKind::Attach
    );
}

#[test]
fn request_kind_defaults_to_launch() {
    assert_eq!(request_kind_from_config("{}").unwrap(), RequestKind::Launch);
    assert_eq!(request_kind_from_config(r#"{"request":7}"#).unwrap(), RequestKind::Launch);
    assert_eq!(
        request_kind_from_config(r#"{"request":"restart"}"#).unwrap_err(),
        "unknown request kind `restart`"
    );
}

fn sample_config() -> &'static str {
    r#"{"request":"launch","debugserverPort":12345,"program":"/tmp/a","cwd":"/tmp"}"#
}

fn shell_env() -> Vec<(String, String)> {
    vec![("PATH".into(), "/tmp".into())]
}

#[test]
fn get_dap_binary_prefers_user_path() {
    let binary = build_debug_adapter_binary(
        sample_config(),
        Some("/custom/dap".into()),
        Some("/usr/bin/ios-lldb-dap".into()),
        shell_env(),
    )
    .unwrap();
    assert_eq!(binary.command, "/custom/dap");
    assert!(binary
        .envs
        .iter()
        .any(|(key, value)| key == CONFIG_ENV_VAR && value.contains("debugserverPort")));
}

#[test]
fn get_dap_binary_uses_worktree_path_when_not_overridden() {
    let binary = build_debug_adapter_binary(
        sample_config(),
        None,
        Some("/usr/local/bin/ios-lldb-dap".into()),
        shell_env(),
    )
    .unwrap();
    assert_eq!(binary.command, "/usr/local/bin/ios-lldb-dap");
    assert_eq!(binary.request, RequestKind::Launch);
    assert_eq!(binary.configuration, sample_config());
    assert_eq!(
        binary.envs,
        vec![
            ("PATH".to_string(), "/tmp".to_string()),
            (CONFIG_ENV_VAR.to_string(), sample_config().to_string()),
        ]
    );
}

#[test]
fn an_adapter_binary_needs_a_config_a_kind_and_a_binary() {
    let err = build_debug_adapter_binary("not json", None, Some("/x".into()), shell_env()).unwrap_err();
    assert!(err.starts_with("invalid config: expected"), "{err}");
    assert_eq!(
        build_debug_adapter_binary(r#"{"request":"x"}"#, None, Some("/x".into()), shell_env()).unwrap_err(),
        "unknown request kind `x`"
    );
    assert_eq!(
        build_debug_adapter_binary("{}", None, None, shell_env()).unwrap_err(),
        "unable to find `ios-lldb` on PATH"
    );
}

#[test]
fn the_adapter_is_served_under_one_name() {
    assert_eq!(ADAPTER_NAME, "ios-lldb");
    assert_eq!(CONFIG_ENV_VAR, "IOS_LLDB_DAP_CONFIG");
    assert_eq!(ensure_adapter("ios-lldb"), Ok(()));
    assert_eq!(ensure_adapter("lldb"), Err("unsupported adapter: lldb".to_string()));
    assert_eq!(ensure_adapter(""), Err("unsupported adapter: ".to_string()));
}

#[test]
fn the_binary_of_the_user_wins() {
    assert_eq!(resolve_binary_path(Some("/a".into()), Some("/b".into())), Ok("/b".to_string()));
    assert_eq!(resolve_binary_path(Some("/a".into()), None), Ok("/a".to_string()));
    assert_eq!(
        resolve_binary_path(None, None),
        Err("unable to find `ios-lldb` on PATH".to_string())
    );
}

#[test]
fn a_variable_is_set_in_place_or_at_the_end() {
    let mut env = vec![("A".to_string(), "1".to_string()), ("B".to_string(), "2".to_string())];
    upsert_env(&mut env, "A", "9".into());
    assert_eq!(env, vec![("A".to_string(), "9".to_string()), ("B".to_string(), "2".to_string())]);
    upsert_env(&mut env, "C", "3".into());
    assert_eq!(env.len(), 3);
    assert_eq!(env[2], ("C".to_string(), "3".to_string()));
}

#[test]
fn the_program_is_read_out_of_the_configuration() {
    assert_eq!(
        parse_program_from_config(r#"{"program":"/bin/app","cwd":"/"}"#),
        Ok(Some("/bin/app".to_string()))
    );
    assert_eq!(parse_program_from_config(r#"{"cwd":"/"}"#), Ok(None));
    assert_eq!(parse_program_from_config(r#"{"program":1}"#), Ok(None));
    assert_eq!(parse_program_from_config("[]"), Ok(None));
    assert!(parse_program_from_config("{").is_err());
}

#[test]
fn convert_debug_config_produces_scenario() {
    let config = DebugConfig {
        label: "Demo".into(),
        adapter: ADAPTER_NAME.into(),
        request: DebugRequest::Launch {
            program: "/bin/app".into(),
            cwd: Some("/tmp".into()),
            args: vec!["--flag".into()],
            envs: vec![("RUST_LOG".into(), "info".into())],
        },
        stop_on_entry: Some(true),
    };

    let scenario = convert_debug_config(config).unwrap();
    assert_eq!(scenario.adapter, ADAPTER_NAME);
    assert!(
        scenario.config.contains(r#""request":"launch""#),
        "config should serialize launch request"
    );
}

#[test]
fn convert_debug_config_handles_attach() {
    let config = DebugConfig {
        label: "Demo".into(),
        adapter: ADAPTER_NAME.into(),
        request: DebugRequest::Attach { process_id: Some(42) },
        stop_on_entry: None,
    };

    let scenario = convert_debug_config(config).unwrap();
    assert!(
        scenario.config.contains(r#""processId":42"#),
        "attach scenario should include process id"
    );
}

#[test]
fn scenarios_are_written_out_in_full() {
    let launch = convert_debug_config(DebugConfig {
        label: "Demo".into(),
        adapter: "other".into(),
        request: DebugRequest::Launch {
            program: "/bin/app".into(),
            cwd: None,
            args: vec!["--flag".into(), "a b".into()],
            envs: vec![
                ("RUST_LOG".into(), "info".into()),
                ("A".into(), "1".into()),
                ("RUST_LOG".into(), "debug".into()),
            ],
        },
        stop_on_entry: Some(true),
    })
    .unwrap();
    assert_eq!(launch.label, "Demo");
    assert_eq!(launch.adapter, "ios-lldb");
    assert_eq!(
        launch.config,
        r#"{"args":["--flag","a b"],"cwd":null,"debugserverPort":0,"env":{"A":"1","RUST_LOG":"debug"},"program":"/bin/app","request":"launch","stopOnEntry":true}"#
    );
    let attach = convert_debug_config(DebugConfig {
        label: "Demo".into(),
        adapter: ADAPTER_NAME.into(),
        request: DebugRequest::Attach { process_id: None },
        stop_on_entry: None,
    })
    .unwrap();
    assert_eq!(
        attach.config,
        r#"{"debugserverPort":0,"processId":null,"request":"attach","stopOnEntry":false}"#
    );
}

#[test]
fn host_flow_needs_a_program() {
    let plan = host_flow(Some("/bin/app".into()), "/bin".into(), None, None).unwrap();
    assert_eq!((plan.program.as_str(), plan.cwd.as_str(), plan.port), ("/bin/app", "/bin", 0));
    let plan = host_flow(Some("/bin/app".into()), "/bin".into(), Some("/w".into()), Some(5)).unwrap();
    assert_eq!((plan.program.as_str(), plan.cwd.as_str(), plan.port), ("/bin/app", "/w", 5));
    assert_eq!(
        host_flow(None, "/bin".into(), None, None).unwrap_err(),
        "--program is required in host mode"
    );
}

#[test]
fn sim_flow_takes_what_the_build_tool_reports() {
    let info = |port, binary: Option<&str>| XcedeInfo {
        debugserver_port: port,
        app_binary: binary.map(|b| b.to_string()),
    };
    let plan = sim_flow(None, None, "/proj".into(), info(Some(7), Some("/out/App"))).unwrap();
    assert_eq!((plan.program.as_str(), plan.cwd.as_str(), plan.port), ("/out/App", "/proj", 7));
    let plan = sim_flow(Some(9), Some("/w".into()), "/proj".into(), info(Some(7), Some("/out/App"))).unwrap();
    assert_eq!((plan.program.as_str(), plan.cwd.as_str(), plan.port), ("/out/App", "/w", 9));
    let plan = sim_flow(None, None, "/proj".into(), info(None, Some("/out/App"))).unwrap();
    assert_eq!(plan.port, 0);
    assert_eq!(
        sim_flow(None, None, "/proj".into(), info(Some(7), None)).unwrap_err(),
        "xcede output missing app_binary; pass --program manually"
    );
}

#[test]
fn device_flow_forwards_a_local_port() {
    let info = |port, binary: Option<&str>| XcedeInfo {
        debugserver_port: port,
        app_binary: binary.map(|b| b.to_string()),
    };
    let plan = device_flow(None, None, "/proj".into(), 2331, info(None, Some("/out/App"))).unwrap();
    assert_eq!((plan.local_port, plan.remote_port), (23456, 2331));
    assert_eq!((plan.program.as_str(), plan.cwd.as_str()), ("/out/App", "/proj"));
    let plan = device_flow(Some(5), Some("/w".into()), "/proj".into(), 2331, info(Some(6), Some("/out/App"))).unwrap();
    assert_eq!((plan.local_port, plan.remote_port), (5, 6));
    assert_eq!(plan.cwd, "/w");
    assert_eq!(
        device_flow(None, None, "/proj".into(), 2331, info(None, None)).unwrap_err(),
        "xcede output missing app_binary; pass --program manually"
    );
}

#[test]
fn the_build_tool_is_run_with_scheme_and_project() {
    assert_eq!(
        run_xcede(Some("Demo".into()), ".".into(), vec!["--verbose".into()]).unwrap(),
        vec!["debug-session", "--scheme", "Demo", "--project", ".", "--verbose"]
    );
    assert_eq!(
        run_xcede(None, ".".into(), Vec::new()).unwrap_err(),
        "--scheme is required for simulator/device modes"
    );
}

#[test]
fn a_configuration_is_written_for_a_plan() {
    let entry = emit_config("ios-lldb".into(), RequestKind::Attach, "/bin/app".into(), "/tmp".into(), 7);
    assert_eq!(entry.label, "ios-lldb");
    assert_eq!(entry.adapter, "ios-lldb");
    assert_eq!(entry.request, "attach");
    assert_eq!(entry.program, "/bin/app");
    assert_eq!(entry.cwd, "/tmp");
    assert_eq!(entry.debugserver_port, 7);
    assert_eq!(emit_config("x".into(), RequestKind::Launch, "p".into(), "c".into(), 0).request, "launch");
}
