use shroudforge::tools::{continuous_check, flag, option_value, run_budget_ms, run_interval_ms, session_limit_seconds, tool_command, tool_known, tool_names, valid_hex_address, ToolCommand};

fn args(items: &[&str]) -> Vec<String> {
    std::iter::once("runtime-diagnostics").chain(items.iter().copied()).map(str::to_string).collect()
}

fn error(items: &[&str]) -> String {
    tool_command(&args(items)).unwrap_err()
}

#[test]
fn listing_and_loader_requests() {
    assert!(matches!(tool_command(&args(&["--list"])), Ok(ToolCommand::List)));
    assert!(matches!(tool_command(&args(&["--root", "C:/game", "--status"])), Ok(ToolCommand::Status { root }) if root == "C:/game"));
    match tool_command(&args(&["--stop", "--root", "C:/game", "--start"])).unwrap() {
        ToolCommand::Request { root, action } => {
            assert_eq!(root, "C:/game");
            assert_eq!(action, "start");
        }
        other => panic!("unexpected {other:?}"),
    }
    assert_eq!(error(&["--status"]), "missing --root installation directory");
}

#[test]
fn tool_runs_need_a_known_tool_and_a_process() {
    assert_eq!(error(&["--root", "r"]), "choose a supported --tool; use --list");
    assert_eq!(error(&["--root", "r", "--tool", "format-disk"]), "choose a supported --tool; use --list");
    assert_eq!(error(&["--root", "r", "--tool", "live-entity-managers"]), "missing --pid");
    assert_eq!(error(&["--root", "r", "--tool", "live-entity-managers", "--pid", "0"]), "invalid pid");
    assert_eq!(error(&["--root", "r", "--tool", "live-entity-managers", "--pid", "x1"]), "invalid pid");
    assert_eq!(error(&["--root", "r", "--tool", "live-entity-managers", "--pid", "4294967296"]), "invalid pid");
    match tool_command(&args(&["--root", "r", "--tool", "live-entity-managers", "--pid", "+42", "--continuous"])).unwrap() {
        ToolCommand::Run(run) => {
            assert_eq!(run.tool, "live-entity-managers");
            assert_eq!(run.pid, 42);
            assert_eq!(run.address, None);
            assert_eq!(run.timeout_seconds, 10);
            assert!(run.continuous);
        }
        other => panic!("unexpected {other:?}"),
    }
}

#[test]
fn metadata_inspection_needs_a_hexadecimal_address() {
    let base = ["--root", "r", "--tool", "inspect-component-metadata", "--pid", "7"];
    assert_eq!(error(&base), "metadata inspection requires --address in hexadecimal");
    let mut bad = base.to_vec();
    bad.extend(["--address", "0x10"]);
    assert_eq!(error(&bad), "invalid address");
    let mut good = base.to_vec();
    good.extend(["--address", "7FFe10", "--timeout-seconds", "60"]);
    match tool_command(&args(&good)).unwrap() {
        ToolCommand::Run(run) => {
            assert_eq!(run.address.as_deref(), Some("7FFe10"));
            assert_eq!(run.timeout_seconds, 60);
            assert!(!run.continuous);
        }
        other => panic!("unexpected {other:?}"),
    }
    assert!(valid_hex_address("ffffffffffffffff"));
    assert!(!valid_hex_address("10000000000000000"));
    assert!(valid_hex_address("+0"));
    assert!(!valid_hex_address("+"));
    assert!(!valid_hex_address(""));
}

#[test]
fn tool_timeouts_are_bounded() {
    let base = ["--root", "r", "--tool", "live-type-references", "--pid", "9", "--timeout-seconds"];
    let with = |value: &str| {
        let mut items = base.to_vec();
        items.push(value);
        tool_command(&args(&items))
    };
    assert_eq!(with("0").unwrap_err(), "timeout must be between 1 and 60 seconds");
    assert_eq!(with("61").unwrap_err(), "timeout must be between 1 and 60 seconds");
    assert_eq!(with("ten").unwrap_err(), "invalid timeout");
    assert!(with("1").is_ok());
}

#[test]
fn arguments_are_found_by_name() {
    let given = args(&["--root", "a", "--root", "b", "--flag"]);
    assert_eq!(option_value(&given, "--root").as_deref(), Some("a"));
    assert_eq!(option_value(&given, "--flag"), None);
    assert!(flag(&given, "--flag"));
    assert!(!flag(&given, "--other"));
    assert!(tool_known("dump-live-components"));
    assert_eq!(tool_names().len(), 5);
}

#[test]
fn continuous_sessions_follow_the_configuration() {
    assert!(continuous_check(false, None, None).is_ok());
    assert!(continuous_check(true, Some(true), Some(true)).is_ok());
    assert_eq!(
        continuous_check(true, Some(true), None).unwrap_err(),
        "continuous diagnostics require enabled and continuous in loader configuration"
    );
    assert_eq!(session_limit_seconds(None), 120);
    assert_eq!(session_limit_seconds(Some(0)), 1);
    assert_eq!(session_limit_seconds(Some(9000)), 3600);
    assert_eq!(run_interval_ms(None), 2000);
    assert_eq!(run_interval_ms(Some(10)), 500);
    assert_eq!(run_interval_ms(Some(70000)), 60000);
    assert_eq!(run_budget_ms(10, 0, 120), Some(10000));
    assert_eq!(run_budget_ms(10, 115_000, 120), Some(5000));
    assert_eq!(run_budget_ms(10, 120_000, 120), Some(0));
    assert_eq!(run_budget_ms(10, 120_001, 120), None);
}
