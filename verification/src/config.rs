//! The three interfaces the gateway works with. They are named once, at
//! start-up, and stay fixed.

use vstd::prelude::*;
use vstd::string::*;

verus! {

/// One of the two WAN links, by its role.
#[derive(Debug, Clone, Copy, PartialEq, Eq, Structural)]
pub enum Nic {
    /// The primary link, which the whole subnet uses by default.
    Wan0,
    /// The secondary link, which single hosts are moved to.
    Wan1,
}

/// The link that a role name stands for.
pub open spec fn nic_of(name: Seq<char>) -> Option<Nic> {
    if name == "wan0"@ {
        Some(Nic::Wan0)
    } else if name == "wan1"@ {
        Some(Nic::Wan1)
    } else {
        None
    }
}

impl Nic {
    /// The role name of the link.
    pub open spec fn name_text(self) -> Seq<char> {
        match self {
            Nic::Wan0 => "wan0"@,
            Nic::Wan1 => "wan1"@,
        }
    }

    /// Reads a role name: `wan0` or `wan1`, and nothing else.
    pub fn parse(name: &str) -> (nic: Option<Nic>)
        ensures
            nic == nic_of(name@),
    {
        if crate::text::same_text(name, "wan0") {
            Some(Nic::Wan0)
        } else if crate::text::same_text(name, "wan1") {
            Some(Nic::Wan1)
        } else {
            None
        }
    }

    /// The role name of the link.
    pub fn name(self) -> (name: &'static str)
        ensures
            name@ == self.name_text(),
    {
        match self {
            Nic::Wan0 => "wan0",
            Nic::Wan1 => "wan1",
        }
    }
}

/// The names of the interfaces.
#[derive(Debug, Clone, PartialEq, Eq)]
pub struct Config {
    /// The interface of the primary WAN.
    pub wan0: String,
    /// The interface of the secondary WAN.
    pub wan1: String,
    /// The interface of the LAN.
    pub lan: String,
}

/// The interface names as mathematical values.
pub struct ConfigView {
    pub wan0: Seq<char>,
    pub wan1: Seq<char>,
    pub lan: Seq<char>,
}

impl ConfigView {
    /// The interface behind a WAN link.
    pub open spec fn interface(self, nic: Nic) -> Seq<char> {
        match nic {
            Nic::Wan0 => self.wan0,
            Nic::Wan1 => self.wan1,
        }
    }
}

impl View for Config {
    type V = ConfigView;

    open spec fn view(&self) -> ConfigView {
        ConfigView { wan0: self.wan0@, wan1: self.wan1@, lan: self.lan@ }
    }
}

/// A name that was given, or the fallback for one that was not.
pub open spec fn name_or(given: Option<Seq<char>>, fallback: Seq<char>) -> Seq<char> {
    match given {
        Some(name) => name,
        None => fallback,
    }
}

fn given_or(given: Option<String>, fallback: &str) -> (name: String)
    ensures
        name@ == name_or(given.deep_view(), fallback@),
{
    match given {
        Some(name) => name,
        None => String::from_str(fallback),
    }
}

impl Config {
    /// The configuration from what the environment holds under `WAN0`,
    /// `WAN1` and `LAN`. A name that is not set falls back to `eth0`, `eth1`
    /// and `eth2`. No name is checked against the system.
    pub fn from_env(wan0: Option<String>, wan1: Option<String>, lan: Option<String>) -> (config:
        Config)
        ensures
            config@ == (ConfigView {
                wan0: name_or(wan0.deep_view(), "eth0"@),
                wan1: name_or(wan1.deep_view(), "eth1"@),
                lan: name_or(lan.deep_view(), "eth2"@),
            }),
    {
        Config {
            wan0: given_or(wan0, "eth0"),
            wan1: given_or(wan1, "eth1"),
            lan: given_or(lan, "eth2"),
        }
    }

    /// The interface behind a WAN link.
    pub fn interface(&self, nic: Nic) -> (name: &String)
        ensures
            name@ == self@.interface(nic),
    {
        match nic {
            Nic::Wan0 => &self.wan0,
            Nic::Wan1 => &self.wan1,
        }
    }

    /// A copy of the configuration.
    pub fn duplicate(&self) -> (copy: Config)
        ensures
            copy@ == self@,
    {
        Config { wan0: self.wan0.clone(), wan1: self.wan1.clone(), lan: self.lan.clone() }
    }
}

} // verus!
