use wan_switch::command::{Command, CommandError};
use wan_switch::gateway::{
    get_default_gateway_for_iface, pick_gateway, Discovery, DiscoveryError, DiscoveryStep,
    GATEWAY_PATTERN,
};
use wan_switch::pattern::{capture_lines, LineCapture};

const SCOPED: &str = "default via 192.168.1.1 dev eth0 proto dhcp src 192.168.1.10 metric 100 \n";
const LISTED: &str = "default via 192.168.1.1 dev eth0 proto dhcp metric 100 \ndefault via 10.0.0.1 dev eth1 proto static metric 200 \n";

fn failure() -> CommandError {
    CommandError {
        command_line: "ip route show default dev eth0".to_string(),
        started: true,
        detail: "Cannot find device \"eth0\"\n".to_string(),
    }
}

fn line(text: &str, capture: Option<&str>) -> LineCapture {
    LineCapture { line: text.to_string(), capture: capture.map(|found| found.to_string()) }
}

#[test]
fn discovery_asks_for_the_interface_first() {
    let (discovery, command) = get_default_gateway_for_iface("eth0");
    assert_eq!(discovery, Discovery::Scoped { iface: "eth0".to_string() });
    assert_eq!(command, Command::ShowDefaultRoute { scope: Some("eth0".to_string()) });
}

#[test]
fn gateway_is_read_from_the_scoped_query() {
    let (discovery, _) = get_default_gateway_for_iface("eth0");
    assert_eq!(
        discovery.advance(Ok(SCOPED.to_string())),
        DiscoveryStep::Done(Ok("192.168.1.1".to_string()))
    );
}

#[test]
fn empty_scoped_query_falls_back_to_the_listing() {
    let (discovery, _) = get_default_gateway_for_iface("eth1");
    let step = discovery.advance(Ok(String::new()));
    assert_eq!(
        step,
        DiscoveryStep::Run(
            Discovery::Listed { iface: "eth1".to_string() },
            Command::ShowDefaultRoute { scope: None },
        )
    );
    let listed = Discovery::Listed { iface: "eth1".to_string() };
    assert_eq!(listed.advance(Ok(LISTED.to_string())), DiscoveryStep::Done(Ok("10.0.0.1".to_string())));
}

#[test]
fn scoped_query_without_next_hop_falls_back() {
    let (discovery, _) = get_default_gateway_for_iface("ppp0");
    let step = discovery.advance(Ok("default dev ppp0 scope link \n".to_string()));
    assert_eq!(
        step,
        DiscoveryStep::Run(
            Discovery::Listed { iface: "ppp0".to_string() },
            Command::ShowDefaultRoute { scope: None },
        )
    );
}

#[test]
fn scoped_query_takes_the_first_next_hop() {
    let output = "default via 192.168.1.1 dev eth0 metric 100 \ndefault via 192.168.1.254 dev eth0 metric 200 \n";
    let (discovery, _) = get_default_gateway_for_iface("eth0");
    assert_eq!(discovery.advance(Ok(output.to_string())), DiscoveryStep::Done(Ok("192.168.1.1".to_string())));
}

#[test]
fn listing_without_the_device_gives_no_gateway() {
    let listed = Discovery::Listed { iface: "eth2".to_string() };
    let step = listed.advance(Ok(LISTED.to_string()));
    assert_eq!(
        step,
        DiscoveryStep::Done(Err(DiscoveryError::NoGateway { iface: "eth2".to_string() }))
    );
    assert_eq!(
        DiscoveryError::NoGateway { iface: "eth2".to_string() }.message(),
        "Could not determine default gateway for iface eth2"
    );
}

#[test]
fn failed_query_ends_the_discovery() {
    let (discovery, _) = get_default_gateway_for_iface("eth0");
    assert_eq!(
        discovery.advance(Err(failure())),
        DiscoveryStep::Done(Err(DiscoveryError::Command(failure())))
    );
    let listed = Discovery::Listed { iface: "eth0".to_string() };
    assert_eq!(
        listed.advance(Err(failure())),
        DiscoveryStep::Done(Err(DiscoveryError::Command(failure())))
    );
    assert_eq!(
        DiscoveryError::Command(failure()).message(),
        "ip route show default dev eth0 failed: Cannot find device \"eth0\"\n"
    );
}

#[test]
fn route_lines_are_matched_one_by_one() {
    let read = capture_lines(GATEWAY_PATTERN, "default via 10.0.0.1 dev eth1\ndefault dev ppp0 scope link\r\n\nvia  172.16.0.1");
    assert_eq!(
        read,
        vec![
            line("default via 10.0.0.1 dev eth1", Some("10.0.0.1")),
            line("default dev ppp0 scope link", None),
            line("", None),
            line("via  172.16.0.1", Some("172.16.0.1")),
        ]
    );
    assert_eq!(capture_lines(GATEWAY_PATTERN, ""), Vec::<LineCapture>::new());
}

#[test]
fn next_hop_needs_four_numbers() {
    let read = capture_lines(GATEWAY_PATTERN, "default via 10.0.0 dev eth1\ndefault via fe80::1 dev eth1\nvia10.0.0.1\n");
    assert_eq!(
        read,
        vec![
            line("default via 10.0.0 dev eth1", None),
            line("default via fe80::1 dev eth1", None),
            line("via10.0.0.1", None),
        ]
    );
}

#[test]
fn first_line_with_device_and_next_hop_is_picked() {
    let lines = vec![
        line("default via 192.168.1.1 dev eth0", Some("192.168.1.1")),
        line("default dev eth1 scope link", None),
        line("default via 10.0.0.1 dev eth1 metric 100", Some("10.0.0.1")),
        line("default via 10.0.0.2 dev eth1 metric 200", Some("10.0.0.2")),
    ];
    assert_eq!(pick_gateway(&lines, "eth1"), Some("10.0.0.1".to_string()));
    assert_eq!(pick_gateway(&lines, "eth0"), Some("192.168.1.1".to_string()));
    assert_eq!(pick_gateway(&lines, "eth2"), None);
    assert_eq!(pick_gateway(&Vec::new(), "eth0"), None);
}

#[test]
fn device_must_be_the_one_asked_for() {
    let lines = vec![
        line("default via 10.0.0.9 dev eth10 metric 50", Some("10.0.0.9")),
        line("default via 10.0.0.1 dev eth1 metric 100", Some("10.0.0.1")),
    ];
    assert_eq!(pick_gateway(&lines, "eth1"), Some("10.0.0.1".to_string()));
    assert_eq!(pick_gateway(&lines, "eth10"), Some("10.0.0.9".to_string()));
    assert_eq!(pick_gateway(&lines, "eth"), None);
    assert_eq!(pick_gateway(&lines, "eth11"), None);
    let lines = vec![line("default via 10.0.0.9 deveth1", Some("10.0.0.9"))];
    assert_eq!(pick_gateway(&lines, "eth1"), None);
    let lines = vec![line("default via 10.0.0.9 dev eth1", Some("10.0.0.9"))];
    assert_eq!(pick_gateway(&lines, "eth1"), Some("10.0.0.9".to_string()));
}

#[test]
fn listing_with_a_longer_device_name_first_gives_the_right_gateway() {
    let listing = "default via 10.0.0.9 dev eth10 metric 50\ndefault via 10.0.0.1 dev eth1 metric 100\n";
    let (discovery, _) = get_default_gateway_for_iface("eth1");
    let step = discovery.advance(Ok(String::new()));
    let listed = match step {
        DiscoveryStep::Run(listed, _) => listed,
        DiscoveryStep::Done(_) => panic!("the discovery ended early"),
    };
    assert_eq!(listed.advance(Ok(listing.to_string())), DiscoveryStep::Done(Ok("10.0.0.1".to_string())));
}

#[test]
fn decision_follows_the_finding() {
    let scoped = Discovery::Scoped { iface: "eth0".to_string() };
    assert_eq!(
        scoped.clone().decide(Ok(Some("1.2.3.4".to_string()))),
        DiscoveryStep::Done(Ok("1.2.3.4".to_string()))
    );
    assert_eq!(
        scoped.clone().decide(Ok(None)),
        DiscoveryStep::Run(
            Discovery::Listed { iface: "eth0".to_string() },
            Command::ShowDefaultRoute { scope: None },
        )
    );
    assert_eq!(
        scoped.decide(Err(failure())),
        DiscoveryStep::Done(Err(DiscoveryError::Command(failure())))
    );
    let listed = Discovery::Listed { iface: "eth0".to_string() };
    assert_eq!(
        listed.clone().decide(Ok(Some("1.2.3.4".to_string()))),
        DiscoveryStep::Done(Ok("1.2.3.4".to_string()))
    );
    assert_eq!(
        listed.decide(Ok(None)),
        DiscoveryStep::Done(Err(DiscoveryError::NoGateway { iface: "eth0".to_string() }))
    );
}
