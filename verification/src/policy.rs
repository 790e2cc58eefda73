//! The fixed points of the routing policy: the two tables, the two rule
//! priorities and the subnet that the gateway serves.

use vstd::prelude::*;

verus! {

/// Routing table of the primary WAN.
pub const TABLE_WAN0: u32 = 100;

/// Routing table of the secondary WAN.
pub const TABLE_WAN1: u32 = 200;

/// Priority of a host's override rule. The smaller value is evaluated first.
pub const PRIO_SPECIFIC: u32 = 1000;

/// Priority of the rule that sends the whole subnet to the primary table.
pub const PRIO_LAN_DEFAULT: u32 = 2000;

/// The subnet behind the gateway, as a source selector.
pub open spec fn lan_subnet_text() -> Seq<char> {
    "10.40.0.0/20"@
}

/// The subnet behind the gateway, as a source selector.
pub fn lan_subnet() -> (subnet: &'static str)
    ensures
        subnet@ == lan_subnet_text(),
{
    "10.40.0.0/20"
}

} // verus!
