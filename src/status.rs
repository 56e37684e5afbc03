use vstd::prelude::*;
use vstd::string::*;

use crate::models::DeviceStatus;
use crate::network::{InterfaceRow, OPER_STATUS_UP};

verus! {

/// Interface types of tunnel and VPN adapters.
pub const VPN_TYPE_PPP: u32 = 23;

pub const VPN_TYPE_TUNNEL: u32 = 131;

pub const VPN_TYPE_L2TP: u32 = 166;

/// Battery reading the operating system gives when the level is unknown.
pub const BATTERY_UNKNOWN: u8 = 255;

pub open spec fn is_vpn_row(row: InterfaceRow) -> bool {
    (row.if_type == VPN_TYPE_PPP || row.if_type == VPN_TYPE_TUNNEL || row.if_type == VPN_TYPE_L2TP)
        && row.oper_status == OPER_STATUS_UP
}

/// Whether a tunnel adapter is up.
pub fn detect_vpn(rows: &Vec<InterfaceRow>) -> (r: bool)
    ensures
        r == exists|i: int| 0 <= i < rows@.len() && #[trigger] is_vpn_row(rows@[i]),
{
    let mut i: usize = 0;
    while i < rows.len()
        invariant
            i <= rows@.len(),
            forall|j: int| 0 <= j < i ==> !#[trigger] is_vpn_row(rows@[j]),
        decreases rows@.len() - i,
    {
        let t = rows[i].if_type;
        if (t == VPN_TYPE_PPP || t == VPN_TYPE_TUNNEL || t == VPN_TYPE_L2TP) && rows[i].oper_status
            == OPER_STATUS_UP {
            assert(is_vpn_row(rows@[i as int]));
            return true;
        }
        i = i + 1;
    }
    false
}

/// What the host probes reported; each reading is absent when its probe failed.
#[derive(Debug)]
pub struct HostReadings {
    pub is_admin: Option<bool>,
    pub vpn: Option<bool>,
    pub battery_life_percent: Option<u8>,
    pub time_zone: Option<String>,
}

/// Builds the best-effort status snapshot from the host probes.
pub struct DeviceStatusProvider;

impl DeviceStatusProvider {
    pub fn new() -> (r: Self) {
        DeviceStatusProvider
    }

    /// Unknown booleans count as false, an unknown battery level stays
    /// unknown, and the time zone defaults to `UTC`.
    pub fn build_status(&self, readings: HostReadings) -> (r: DeviceStatus)
        ensures
            r.usage_access == (readings.is_admin == Some(true)),
            !r.accessibility,
            r.overlay,
            r.vpn == (readings.vpn == Some(true)),
            r.battery_percent == match readings.battery_life_percent {
                Some(p) => if p == BATTERY_UNKNOWN {
                    None
                } else {
                    Some(p)
                },
                None => None,
            },
            r.time_zone_id@ == match readings.time_zone {
                Some(t) => t@,
                None => "UTC"@,
            },
    {
        let usage_access = match readings.is_admin {
            Some(b) => b,
            None => false,
        };
        let vpn = match readings.vpn {
            Some(b) => b,
            None => false,
        };
        let battery_percent = match readings.battery_life_percent {
            Some(p) => if p == BATTERY_UNKNOWN {
                None
            } else {
                Some(p)
            },
            None => None,
        };
        let time_zone_id = match readings.time_zone {
            Some(t) => t,
            None => String::from_str("UTC"),
        };
        DeviceStatus {
            usage_access,
            accessibility: false,
            overlay: true,
            vpn,
            battery_percent,
            time_zone_id,
        }
    }
}

} // verus!
