use wan_switch::config::{Config, Nic};
use wan_switch::policy::{lan_subnet, PRIO_LAN_DEFAULT, PRIO_SPECIFIC, TABLE_WAN0, TABLE_WAN1};

#[test]
fn unset_names_fall_back() {
    let config = Config::from_env(None, None, None);
    assert_eq!(
        config,
        Config { wan0: "eth0".to_string(), wan1: "eth1".to_string(), lan: "eth2".to_string() }
    );
}

#[test]
fn set_names_are_taken() {
    let config = Config::from_env(Some("wan-a".to_string()), None, Some("br0".to_string()));
    assert_eq!(
        config,
        Config { wan0: "wan-a".to_string(), wan1: "eth1".to_string(), lan: "br0".to_string() }
    );
    let config = Config::from_env(None, Some("ppp0".to_string()), None);
    assert_eq!(config.wan1, "ppp0");
}

#[test]
fn empty_name_is_a_name() {
    let config = Config::from_env(Some(String::new()), None, None);
    assert_eq!(config.wan0, "");
}

#[test]
fn interface_follows_the_link() {
    let config = Config::from_env(Some("a".to_string()), Some("b".to_string()), None);
    assert_eq!(config.interface(Nic::Wan0), "a");
    assert_eq!(config.interface(Nic::Wan1), "b");
    assert_eq!(config.duplicate(), config);
}

#[test]
fn only_the_two_links_are_known() {
    assert_eq!(Nic::parse("wan0"), Some(Nic::Wan0));
    assert_eq!(Nic::parse("wan1"), Some(Nic::Wan1));
    assert_eq!(Nic::parse("wan2"), None);
    assert_eq!(Nic::parse("WAN0"), None);
    assert_eq!(Nic::parse(""), None);
    assert_eq!(Nic::parse("wan0 "), None);
    assert_eq!(Nic::Wan0.name(), "wan0");
    assert_eq!(Nic::Wan1.name(), "wan1");
}

#[test]
fn policy_constants_are_fixed() {
    assert_eq!(TABLE_WAN0, 100);
    assert_eq!(TABLE_WAN1, 200);
    assert_eq!(PRIO_SPECIFIC, 1000);
    assert_eq!(PRIO_LAN_DEFAULT, 2000);
    assert_eq!(lan_subnet(), "10.40.0.0/20");
}

#[test]
fn override_priority_is_below_subnet_priority() {
    assert!(PRIO_SPECIFIC < PRIO_LAN_DEFAULT);
}
