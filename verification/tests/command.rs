use wan_switch::command::{decimal_text, run_cmd, Command, CommandError, Execution};

fn words(args: &[&str]) -> Vec<String> {
    args.iter().map(|arg| arg.to_string()).collect()
}

#[test]
fn numbers_are_written_in_decimal() {
    assert_eq!(decimal_text(0), "0");
    assert_eq!(decimal_text(7), "7");
    assert_eq!(decimal_text(10), "10");
    assert_eq!(decimal_text(100), "100");
    assert_eq!(decimal_text(200), "200");
    assert_eq!(decimal_text(1000), "1000");
    assert_eq!(decimal_text(2000), "2000");
    assert_eq!(decimal_text(1234567890), "1234567890");
    assert_eq!(decimal_text(u32::MAX), "4294967295");
}

#[test]
fn every_command_starts_the_ip_tool() {
    assert_eq!(Command::program(), "ip");
}

#[test]
fn default_route_of_all_devices_is_shown() {
    let command = Command::ShowDefaultRoute { scope: None };
    assert_eq!(command.argv(), words(&["route", "show", "default"]));
}

#[test]
fn default_route_of_one_device_is_shown() {
    let command = Command::ShowDefaultRoute { scope: Some("eth0".to_string()) };
    assert_eq!(command.argv(), words(&["route", "show", "default", "dev", "eth0"]));
}

#[test]
fn default_route_is_replaced_in_its_table() {
    let command = Command::ReplaceDefaultRoute {
        gateway: "192.168.1.1".to_string(),
        dev: "eth0".to_string(),
        table: 100,
    };
    assert_eq!(
        command.argv(),
        words(&["route", "replace", "default", "via", "192.168.1.1", "dev", "eth0", "table", "100"])
    );
}

#[test]
fn rules_are_listed() {
    assert_eq!(Command::ListRules.argv(), words(&["rule", "show"]));
}

#[test]
fn rule_is_added_with_its_priority() {
    let command = Command::AddRule { from: "10.40.0.5/32".to_string(), table: 200, priority: 1000 };
    assert_eq!(
        command.argv(),
        words(&["rule", "add", "from", "10.40.0.5/32", "lookup", "200", "priority", "1000"])
    );
}

#[test]
fn rule_is_deleted_by_selector_and_table() {
    let command = Command::DeleteRule { from: "10.40.0.5/32".to_string(), table: 100 };
    assert_eq!(command.argv(), words(&["rule", "del", "from", "10.40.0.5/32", "lookup", "100"]));
}

#[test]
fn link_routes_of_a_device_are_listed() {
    let command = Command::ListLinkRoutes { dev: "eth1".to_string() };
    assert_eq!(command.argv(), words(&["-4", "route", "show", "dev", "eth1", "scope", "link"]));
}

#[test]
fn link_route_is_replaced_in_its_table() {
    let command = Command::ReplaceLinkRoute {
        prefix: "192.168.1.0/24".to_string(),
        dev: "eth0".to_string(),
        table: 100,
    };
    assert_eq!(
        command.argv(),
        words(&["route", "replace", "192.168.1.0/24", "dev", "eth0", "scope", "link", "table", "100"])
    );
}

#[test]
fn address_is_deleted_from_a_device() {
    let command = Command::DeleteAddress { cidr: "10.40.0.0/20".to_string(), dev: "eth1".to_string() };
    assert_eq!(command.argv(), words(&["addr", "del", "10.40.0.0/20", "dev", "eth1"]));
}

#[test]
fn command_line_joins_program_and_arguments() {
    assert_eq!(Command::ListRules.line(), "ip rule show");
    let command = Command::DeleteRule { from: "10.40.0.5/32".to_string(), table: 200 };
    assert_eq!(command.line(), "ip rule del from 10.40.0.5/32 lookup 200");
}

#[test]
fn successful_run_gives_its_output() {
    let execution = Execution::Exited {
        success: true,
        stdout: "0:\tfrom all lookup local\n".to_string(),
        stderr: "warning\n".to_string(),
    };
    assert_eq!(run_cmd(&Command::ListRules, execution), Ok("0:\tfrom all lookup local\n".to_string()));
}

#[test]
fn failed_run_gives_its_error_text() {
    let execution = Execution::Exited {
        success: false,
        stdout: "ignored".to_string(),
        stderr: "RTNETLINK answers: File exists\n".to_string(),
    };
    let command = Command::AddRule { from: "10.40.0.5/32".to_string(), table: 200, priority: 1000 };
    let error = run_cmd(&command, execution).unwrap_err();
    assert_eq!(
        error,
        CommandError {
            command_line: "ip rule add from 10.40.0.5/32 lookup 200 priority 1000".to_string(),
            started: true,
            detail: "RTNETLINK answers: File exists\n".to_string(),
        }
    );
    assert_eq!(
        error.message(),
        "ip rule add from 10.40.0.5/32 lookup 200 priority 1000 failed: RTNETLINK answers: File exists\n"
    );
}

#[test]
fn program_that_did_not_start_is_a_failure() {
    let execution = Execution::NotStarted { reason: "No such file or directory".to_string() };
    let error = run_cmd(&Command::ListRules, execution).unwrap_err();
    assert_eq!(
        error,
        CommandError {
            command_line: "ip rule show".to_string(),
            started: false,
            detail: "No such file or directory".to_string(),
        }
    );
    assert_eq!(error.message(), "failed to run ip rule show");
}
