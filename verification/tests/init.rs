use std::collections::BTreeMap;
use wan_switch::command::{run_cmd, Command, CommandError, Execution};
use wan_switch::config::Config;
use wan_switch::gateway::DiscoveryError;
use wan_switch::init::{initialize_lan_to_wan0, InitError, InitPhase, InitStep, Initialization};

/// A system in memory: its rules, the routes of its tables, and what its
/// main table shows.
struct FakeSystem {
    rules: Vec<(u32, String, u32)>,
    routes: BTreeMap<(u32, String), String>,
    scoped_default: BTreeMap<String, String>,
    all_default: String,
    links: BTreeMap<String, String>,
    failing: Vec<String>,
    log: Vec<String>,
}

fn done(stdout: String) -> Execution {
    Execution::Exited { success: true, stdout, stderr: String::new() }
}

fn refused(stderr: &str) -> Execution {
    Execution::Exited { success: false, stdout: String::new(), stderr: stderr.to_string() }
}

impl FakeSystem {
    fn new() -> FakeSystem {
        let mut scoped_default = BTreeMap::new();
        scoped_default.insert(
            "eth0".to_string(),
            "default via 192.168.1.1 dev eth0 proto dhcp metric 100 \n".to_string(),
        );
        scoped_default
            .insert("eth1".to_string(), "default via 10.0.0.1 dev eth1 proto dhcp metric 200 \n".to_string());
        let mut links = BTreeMap::new();
        links.insert(
            "eth0".to_string(),
            "192.168.1.0/24 proto kernel scope link src 192.168.1.10 metric 100 \n".to_string(),
        );
        links.insert(
            "eth1".to_string(),
            "10.0.0.0/24 proto kernel scope link src 10.0.0.10 metric 200 \n10.0.0.1 scope link \n".to_string(),
        );
        FakeSystem {
            rules: Vec::new(),
            routes: BTreeMap::new(),
            scoped_default,
            all_default: "default via 192.168.1.1 dev eth0 proto dhcp metric 100 \ndefault via 10.0.0.1 dev eth1 proto dhcp metric 200 \n".to_string(),
            links,
            failing: Vec::new(),
            log: Vec::new(),
        }
    }

    fn listing(&self) -> String {
        let mut text = String::from("0:\tfrom all lookup local\n");
        for (priority, selector, table) in &self.rules {
            text.push_str(&format!("{}:\tfrom {} lookup {}\n", priority, selector, table));
        }
        text.push_str("32766:\tfrom all lookup main\n32767:\tfrom all lookup default\n");
        text
    }

    fn execute(&mut self, command: &Command) -> Execution {
        let line = command.line();
        self.log.push(line.clone());
        if self.failing.iter().any(|start| line.starts_with(start.as_str())) {
            return refused("RTNETLINK answers: Operation not permitted\n");
        }
        match command {
            Command::ShowDefaultRoute { scope: Some(dev) } => {
                done(self.scoped_default.get(dev).cloned().unwrap_or_default())
            }
            Command::ShowDefaultRoute { scope: None } => done(self.all_default.clone()),
            Command::ReplaceDefaultRoute { gateway, dev, table } => {
                self.routes
                    .insert((*table, "default".to_string()), format!("via {} dev {}", gateway, dev));
                done(String::new())
            }
            Command::ListRules => done(self.listing()),
            Command::AddRule { from, table, priority } => {
                self.rules.push((*priority, from.clone(), *table));
                done(String::new())
            }
            Command::DeleteRule { from, table } => {
                match self.rules.iter().position(|rule| rule.1 == *from && rule.2 == *table) {
                    Some(at) => {
                        self.rules.remove(at);
                        done(String::new())
                    }
                    None => refused("RTNETLINK answers: No such file or directory\n"),
                }
            }
            Command::ListLinkRoutes { dev } => done(self.links.get(dev).cloned().unwrap_or_default()),
            Command::ReplaceLinkRoute { prefix, dev, table } => {
                self.routes.insert((*table, prefix.clone()), format!("dev {} scope link", dev));
                done(String::new())
            }
            Command::DeleteAddress { .. } => refused("RTNETLINK answers: Cannot assign requested address\n"),
        }
    }
}

fn config() -> Config {
    Config::from_env(None, None, None)
}

fn drive(config: &Config, system: &mut FakeSystem) -> Result<(), InitError> {
    let (mut state, mut command) = initialize_lan_to_wan0(config);
    loop {
        let outcome = run_cmd(&command, system.execute(&command));
        match state.advance(outcome) {
            InitStep::Run(next, following) => {
                state = next;
                command = following;
            }
            InitStep::Done(result) => return result,
        }
    }
}

fn failure(command_line: &str) -> CommandError {
    CommandError {
        command_line: command_line.to_string(),
        started: true,
        detail: "RTNETLINK answers: Operation not permitted\n".to_string(),
    }
}

fn converged_routes() -> BTreeMap<(u32, String), String> {
    let mut routes = BTreeMap::new();
    routes.insert((100, "default".to_string()), "via 192.168.1.1 dev eth0".to_string());
    routes.insert((100, "192.168.1.0/24".to_string()), "dev eth0 scope link".to_string());
    routes.insert((200, "default".to_string()), "via 10.0.0.1 dev eth1".to_string());
    routes.insert((200, "10.0.0.0/24".to_string()), "dev eth1 scope link".to_string());
    routes.insert((200, "10.0.0.1".to_string()), "dev eth1 scope link".to_string());
    routes
}

#[test]
fn sequence_starts_with_the_cleanup_of_the_primary_wan() {
    let (state, command) = initialize_lan_to_wan0(&config());
    assert_eq!(state, Initialization { config: config(), phase: InitPhase::CleaningPrimary });
    assert_eq!(
        command,
        Command::DeleteAddress { cidr: "10.40.0.0/20".to_string(), dev: "eth0".to_string() }
    );
}

#[test]
fn fresh_system_is_brought_to_the_default_policy() {
    let mut system = FakeSystem::new();
    assert_eq!(drive(&config(), &mut system), Ok(()));
    assert_eq!(
        system.log,
        vec![
            "ip addr del 10.40.0.0/20 dev eth0",
            "ip addr del 10.40.0.0/20 dev eth1",
            "ip route show default dev eth0",
            "ip route show default dev eth1",
            "ip route replace default via 192.168.1.1 dev eth0 table 100",
            "ip route replace default via 10.0.0.1 dev eth1 table 200",
            "ip -4 route show dev eth0 scope link",
            "ip route replace 192.168.1.0/24 dev eth0 scope link table 100",
            "ip -4 route show dev eth1 scope link",
            "ip route replace 10.0.0.0/24 dev eth1 scope link table 200",
            "ip route replace 10.0.0.1 dev eth1 scope link table 200",
            "ip rule show",
            "ip rule add from 10.40.0.0/20 lookup 100 priority 2000",
        ]
    );
    assert_eq!(system.rules, vec![(2000, "10.40.0.0/20".to_string(), 100)]);
    assert_eq!(system.routes, converged_routes());
}

#[test]
fn second_run_adds_no_rule_and_no_route() {
    let mut system = FakeSystem::new();
    assert_eq!(drive(&config(), &mut system), Ok(()));
    let first = system.log.len();
    assert_eq!(drive(&config(), &mut system), Ok(()));
    assert_eq!(system.rules, vec![(2000, "10.40.0.0/20".to_string(), 100)]);
    assert_eq!(system.routes, converged_routes());
    assert!(system.log[first..].iter().all(|line| !line.starts_with("ip rule add")));
    assert_eq!(system.log[first..].last().unwrap(), "ip rule show");
    assert_eq!(drive(&config(), &mut system), Ok(()));
    assert_eq!(system.rules.len(), 1);
    assert_eq!(system.routes.len(), 5);
}

#[test]
fn configured_interfaces_are_used() {
    let config = Config::from_env(Some("ppp0".to_string()), Some("lte0".to_string()), None);
    let mut system = FakeSystem::new();
    system.scoped_default.insert("ppp0".to_string(), "default via 172.16.0.1 dev ppp0 \n".to_string());
    system.scoped_default.insert("lte0".to_string(), "default via 172.17.0.1 dev lte0 \n".to_string());
    assert_eq!(drive(&config, &mut system), Ok(()));
    assert_eq!(system.routes.get(&(100, "default".to_string())).unwrap(), "via 172.16.0.1 dev ppp0");
    assert_eq!(system.routes.get(&(200, "default".to_string())).unwrap(), "via 172.17.0.1 dev lte0");
    assert_eq!(system.log[0], "ip addr del 10.40.0.0/20 dev ppp0");
    assert_eq!(system.log[1], "ip addr del 10.40.0.0/20 dev lte0");
}

#[test]
fn gateway_is_taken_from_the_listing_when_the_scoped_query_is_empty() {
    let mut system = FakeSystem::new();
    system.scoped_default.clear();
    assert_eq!(drive(&config(), &mut system), Ok(()));
    assert_eq!(
        system.log[2..8],
        [
            "ip route show default dev eth0",
            "ip route show default",
            "ip route show default dev eth1",
            "ip route show default",
            "ip route replace default via 192.168.1.1 dev eth0 table 100",
            "ip route replace default via 10.0.0.1 dev eth1 table 200",
        ]
    );
    assert_eq!(system.routes, converged_routes());
}

#[test]
fn missing_gateway_stops_the_sequence_before_any_route_is_touched() {
    let mut system = FakeSystem::new();
    system.scoped_default.remove("eth1");
    system.all_default = "default via 192.168.1.1 dev eth0 proto dhcp metric 100 \n".to_string();
    let error = drive(&config(), &mut system).unwrap_err();
    assert_eq!(
        error,
        InitError::Gateway {
            iface: "eth1".to_string(),
            failure: DiscoveryError::NoGateway { iface: "eth1".to_string() },
        }
    );
    assert_eq!(
        error.message(),
        "get gateway for eth1: Could not determine default gateway for iface eth1"
    );
    assert!(system.routes.is_empty());
    assert!(system.rules.is_empty());
    assert_eq!(system.log.last().unwrap(), "ip route show default");
}

#[test]
fn failed_route_query_stops_the_sequence() {
    let mut system = FakeSystem::new();
    system.failing.push("ip route show default dev eth0".to_string());
    let error = drive(&config(), &mut system).unwrap_err();
    assert_eq!(
        error,
        InitError::Gateway {
            iface: "eth0".to_string(),
            failure: DiscoveryError::Command(failure("ip route show default dev eth0")),
        }
    );
    assert_eq!(
        error.message(),
        "get gateway for eth0: ip route show default dev eth0 failed: RTNETLINK answers: Operation not permitted\n"
    );
    assert_eq!(system.log.len(), 3);
}

#[test]
fn failed_default_route_stops_the_sequence() {
    let mut system = FakeSystem::new();
    system.failing.push("ip route replace default via 10.0.0.1".to_string());
    let error = drive(&config(), &mut system).unwrap_err();
    assert_eq!(
        error,
        InitError::DefaultRoute {
            table: 200,
            cause: failure("ip route replace default via 10.0.0.1 dev eth1 table 200"),
        }
    );
    assert_eq!(
        error.message(),
        "set table 200 default route: ip route replace default via 10.0.0.1 dev eth1 table 200 failed: RTNETLINK answers: Operation not permitted\n"
    );
    assert_eq!(system.log.len(), 6);
    let mut system = FakeSystem::new();
    system.failing.push("ip route replace default via 192.168.1.1".to_string());
    let error = drive(&config(), &mut system).unwrap_err();
    assert_eq!(
        error,
        InitError::DefaultRoute {
            table: 100,
            cause: failure("ip route replace default via 192.168.1.1 dev eth0 table 100"),
        }
    );
    assert_eq!(system.log.len(), 5);
}

#[test]
fn failed_link_listing_stops_the_sequence() {
    let mut system = FakeSystem::new();
    system.failing.push("ip -4 route show dev eth1".to_string());
    let error = drive(&config(), &mut system).unwrap_err();
    assert_eq!(
        error,
        InitError::LinkRoutes {
            iface: "eth1".to_string(),
            table: 200,
            cause: failure("ip -4 route show dev eth1 scope link"),
        }
    );
    assert_eq!(
        error.message(),
        "mirror link routes for eth1 to table 200: ip -4 route show dev eth1 scope link failed: RTNETLINK answers: Operation not permitted\n"
    );
    assert!(system.rules.is_empty());
}

#[test]
fn failed_link_replacement_is_passed_over() {
    let mut system = FakeSystem::new();
    system.failing.push("ip route replace 10.0.0.0/24".to_string());
    system.failing.push("ip route replace 192.168.1.0/24".to_string());
    assert_eq!(drive(&config(), &mut system), Ok(()));
    assert_eq!(system.log.len(), 13);
    let mut routes = converged_routes();
    routes.remove(&(200, "10.0.0.0/24".to_string()));
    routes.remove(&(100, "192.168.1.0/24".to_string()));
    assert_eq!(system.routes, routes);
    assert_eq!(system.rules, vec![(2000, "10.40.0.0/20".to_string(), 100)]);
}

#[test]
fn failed_rule_listing_stops_the_sequence() {
    let mut system = FakeSystem::new();
    system.failing.push("ip rule show".to_string());
    let error = drive(&config(), &mut system).unwrap_err();
    assert_eq!(error, InitError::BaseRule { cause: failure("ip rule show") });
    assert_eq!(
        error.message(),
        "add base LAN policy rule: ip rule show failed: RTNETLINK answers: Operation not permitted\n"
    );
}

#[test]
fn failed_rule_addition_stops_the_sequence() {
    let mut system = FakeSystem::new();
    system.failing.push("ip rule add".to_string());
    let error = drive(&config(), &mut system).unwrap_err();
    assert_eq!(
        error,
        InitError::BaseRule {
            cause: failure("ip rule add from 10.40.0.0/20 lookup 100 priority 2000"),
        }
    );
    assert!(system.rules.is_empty());
}

#[test]
fn rule_of_the_subnet_that_is_there_is_kept() {
    let mut system = FakeSystem::new();
    system.rules.push((1000, "10.40.0.5/32".to_string(), 200));
    system.rules.push((2000, "10.40.0.0/20".to_string(), 100));
    assert_eq!(drive(&config(), &mut system), Ok(()));
    assert_eq!(
        system.rules,
        vec![(1000, "10.40.0.5/32".to_string(), 200), (2000, "10.40.0.0/20".to_string(), 100)]
    );
    assert_eq!(system.log.last().unwrap(), "ip rule show");
}

#[test]
fn program_that_cannot_be_started_stops_the_sequence_at_the_gateway() {
    let (mut state, mut command) = initialize_lan_to_wan0(&config());
    let mut asked = Vec::new();
    let result = loop {
        asked.push(command.line());
        let outcome =
            run_cmd(&command, Execution::NotStarted { reason: "No such file or directory".to_string() });
        match state.advance(outcome) {
            InitStep::Run(next, following) => {
                state = next;
                command = following;
            }
            InitStep::Done(result) => break result,
        }
    };
    assert_eq!(
        asked,
        vec![
            "ip addr del 10.40.0.0/20 dev eth0",
            "ip addr del 10.40.0.0/20 dev eth1",
            "ip route show default dev eth0",
        ]
    );
    let error = result.unwrap_err();
    assert_eq!(error.message(), "get gateway for eth0: failed to run ip route show default dev eth0");
}

#[test]
fn gateway_of_a_device_with_a_longer_name_is_not_taken() {
    let mut system = FakeSystem::new();
    system.scoped_default.clear();
    system.all_default = "default via 10.0.0.9 dev eth10 metric 50 \ndefault via 192.168.1.1 dev eth0 metric 100 \ndefault via 10.0.0.1 dev eth1 metric 200 \n".to_string();
    assert_eq!(drive(&config(), &mut system), Ok(()));
    assert_eq!(system.routes.get(&(100, "default".to_string())).unwrap(), "via 192.168.1.1 dev eth0");
    assert_eq!(system.routes.get(&(200, "default".to_string())).unwrap(), "via 10.0.0.1 dev eth1");
}

#[test]
fn subnet_rule_of_a_table_with_more_digits_does_not_stand_for_it() {
    let mut system = FakeSystem::new();
    system.rules.push((2000, "10.40.0.0/20".to_string(), 1000));
    assert_eq!(drive(&config(), &mut system), Ok(()));
    assert_eq!(
        system.rules,
        vec![(2000, "10.40.0.0/20".to_string(), 1000), (2000, "10.40.0.0/20".to_string(), 100)]
    );
}
