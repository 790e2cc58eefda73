use std::collections::VecDeque;
use wan_switch::command::{Command, CommandError};
use wan_switch::pattern::{capture_lines, LineCapture};
use wan_switch::routes::{
    ensure_table_default_route, link_route_commands, mirror_link_routes_to_table, Mirror,
    MirrorStep, LINK_PATTERN,
};

const LINKS: &str = "192.168.1.0/24 proto kernel scope link src 192.168.1.10 metric 100 \n192.168.1.1 scope link \n";

fn failure() -> CommandError {
    CommandError {
        command_line: "ip route replace 192.168.1.0/24 dev eth0 scope link table 100".to_string(),
        started: true,
        detail: "RTNETLINK answers: Operation not permitted\n".to_string(),
    }
}

fn replace(prefix: &str, dev: &str, table: u32) -> Command {
    Command::ReplaceLinkRoute { prefix: prefix.to_string(), dev: dev.to_string(), table }
}

fn line(text: &str, capture: Option<&str>) -> LineCapture {
    LineCapture { line: text.to_string(), capture: capture.map(|found| found.to_string()) }
}

#[test]
fn default_route_command_names_gateway_device_and_table() {
    assert_eq!(
        ensure_table_default_route("eth1", 200, "10.0.0.1"),
        Command::ReplaceDefaultRoute {
            gateway: "10.0.0.1".to_string(),
            dev: "eth1".to_string(),
            table: 200,
        }
    );
}

#[test]
fn prefix_is_read_at_the_start_of_a_line() {
    let read = capture_lines(LINK_PATTERN, "192.168.1.0/24 proto kernel scope link\n10.0.0.1 scope link\ndefault via 10.0.0.1\n 10.1.0.0/16 scope link\nfe80::/64 scope link\n10.2.0.0/ scope link\n");
    assert_eq!(
        read,
        vec![
            line("192.168.1.0/24 proto kernel scope link", Some("192.168.1.0/24")),
            line("10.0.0.1 scope link", Some("10.0.0.1")),
            line("default via 10.0.0.1", None),
            line(" 10.1.0.0/16 scope link", None),
            line("fe80::/64 scope link", None),
            line("10.2.0.0/ scope link", Some("10.2.0.0")),
        ]
    );
}

#[test]
fn one_replacement_for_each_line_with_a_prefix() {
    let lines = vec![
        line("192.168.1.0/24 proto kernel scope link", Some("192.168.1.0/24")),
        line("default via 10.0.0.1", None),
        line("192.168.1.1 scope link", Some("192.168.1.1")),
    ];
    let commands = link_route_commands(&lines, "eth0", 100);
    assert_eq!(
        commands,
        VecDeque::from(vec![replace("192.168.1.0/24", "eth0", 100), replace("192.168.1.1", "eth0", 100)])
    );
    assert_eq!(link_route_commands(&Vec::new(), "eth0", 100), VecDeque::new());
}

#[test]
fn copy_starts_with_the_listing() {
    let (mirror, command) = mirror_link_routes_to_table("eth0", 100);
    assert_eq!(mirror, Mirror::Listing { iface: "eth0".to_string(), table: 100 });
    assert_eq!(command, Command::ListLinkRoutes { dev: "eth0".to_string() });
}

#[test]
fn failed_listing_ends_the_copy() {
    let (mirror, _) = mirror_link_routes_to_table("eth0", 100);
    assert_eq!(mirror.advance(Err(failure())), MirrorStep::Done(Err(failure())));
}

#[test]
fn listing_without_routes_ends_the_copy() {
    let (mirror, _) = mirror_link_routes_to_table("eth0", 100);
    assert_eq!(mirror.advance(Ok(String::new())), MirrorStep::Done(Ok(())));
}

#[test]
fn replacements_run_in_order_whatever_comes_back() {
    let (mirror, _) = mirror_link_routes_to_table("eth0", 100);
    let step = mirror.advance(Ok(LINKS.to_string()));
    let second = VecDeque::from(vec![replace("192.168.1.1", "eth0", 100)]);
    assert_eq!(
        step,
        MirrorStep::Run(Mirror::Replacing { pending: second }, replace("192.168.1.0/24", "eth0", 100))
    );
    let mirror = match step {
        MirrorStep::Run(mirror, _) => mirror,
        MirrorStep::Done(_) => panic!("the copy ended early"),
    };
    let step = mirror.advance(Err(failure()));
    assert_eq!(
        step,
        MirrorStep::Run(Mirror::Replacing { pending: VecDeque::new() }, replace("192.168.1.1", "eth0", 100))
    );
    let mirror = match step {
        MirrorStep::Run(mirror, _) => mirror,
        MirrorStep::Done(_) => panic!("the copy ended early"),
    };
    assert_eq!(mirror.advance(Err(failure())), MirrorStep::Done(Ok(())));
}
