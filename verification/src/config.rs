//! The configuration surface the core consumes.
//!
//! Loading and JSON parsing live outside the library; these are the
//! plain values handed in, plus the validation rules applied to them:
//! a malformed address or port token is skipped with a diagnostic,
//! never fatal.

use vstd::prelude::*;

use crate::adapters::HPSwitch;
use crate::chars::{is_digit, is_digit_exec, str_chars};
use crate::ports::{get_port_list, spec_port_list};

verus! {

/// One managed switch: its address, its client-facing port list as the
/// raw specification string (`"1,3,5-8"`), and its static site label.
pub struct HPSwitchConfig {
    pub ip: String,
    pub ports: String,
    pub location: String,
}

/// The message-bus endpoint and credentials.
pub struct MqttConfig {
    pub host: String,
    pub user: String,
    pub password: String,
    pub topic: String,
}

/// The firewall's address and API credentials.
pub struct OPNSenseConfig {
    pub ip: String,
    pub api_key: String,
    pub api_secret: String,
}

/// One access point of the wireless controller: its MAC and the site
/// label it stands for.
pub struct UniFiAPConfig {
    pub mac: String,
    pub location: String,
}

/// The wireless controller: address, credentials, and the static
/// MAC-to-location directory of its access points.
pub struct UniFiControllerConfig {
    pub ip: String,
    pub user: String,
    pub password: String,
    pub access_points: Vec<UniFiAPConfig>,
}

/// The whole configuration: each adapter family optional, plus the
/// poll-loop cadence in seconds.
pub struct AppConfig {
    pub hp_switches: Option<Vec<HPSwitchConfig>>,
    pub unifi_controller: Option<UniFiControllerConfig>,
    pub opnsense: Option<OPNSenseConfig>,
    pub mqtt: Option<MqttConfig>,
    pub scan_interval: u64,
}

/// Length of the run of decimal digits starting at position `i`.
pub open spec fn digit_run(s: Seq<char>, i: int) -> int
    decreases s.len() - i,
{
    if 0 <= i < s.len() && is_digit(s[i]) {
        1 + digit_run(s, i + 1)
    } else {
        0
    }
}

/// Whether the string begins with a dotted quad: four runs of one to
/// three decimal digits separated by single dots.  Trailing text after
/// the fourth run is not examined.
pub open spec fn spec_ipv4_prefix(s: Seq<char>) -> bool {
    let l1 = digit_run(s, 0);
    let p1 = l1;
    let l2 = digit_run(s, p1 + 1);
    let p2 = p1 + 1 + l2;
    let l3 = digit_run(s, p2 + 1);
    let p3 = p2 + 1 + l3;
    let l4 = digit_run(s, p3 + 1);
    &&& 1 <= l1 <= 3
    &&& p1 < s.len() && s[p1] == '.'
    &&& 1 <= l2 <= 3
    &&& p2 < s.len() && s[p2] == '.'
    &&& 1 <= l3 <= 3
    &&& p3 < s.len() && s[p3] == '.'
    &&& 1 <= l4
}

fn digit_run_at(s: &Vec<char>, i: usize) -> (r: usize)
    requires
        i <= s.len(),
    ensures
        r as int == digit_run(s@, i as int),
        i + r <= s.len(),
    decreases s.len() - i,
{
    if i < s.len() && is_digit_exec(s[i]) {
        1 + digit_run_at(s, i + 1)
    } else {
        0
    }
}

/// Whether a configured address looks like an IPv4 dotted quad; a
/// switch entry failing this check is skipped at startup.
pub fn is_valid_ipv4(ip: &str) -> (r: bool)
    ensures
        r == spec_ipv4_prefix(ip@),
{
    let s = str_chars(ip);
    let l1 = digit_run_at(&s, 0);
    if l1 < 1 || l1 > 3 {
        return false;
    }
    let p1 = l1;
    if p1 >= s.len() || s[p1] != '.' {
        return false;
    }
    let l2 = digit_run_at(&s, p1 + 1);
    if l2 < 1 || l2 > 3 {
        return false;
    }
    let p2 = p1 + 1 + l2;
    if p2 >= s.len() || s[p2] != '.' {
        return false;
    }
    let l3 = digit_run_at(&s, p2 + 1);
    if l3 < 1 || l3 > 3 {
        return false;
    }
    let p3 = p2 + 1 + l3;
    if p3 >= s.len() || s[p3] != '.' {
        return false;
    }
    let l4 = digit_run_at(&s, p3 + 1);
    l4 >= 1
}

/// Build one switch from its configuration entry: an entry whose
/// address is not an IPv4 dotted quad is rejected, to be skipped with
/// a diagnostic; otherwise the port specification is expanded and the
/// switch's identity kept as given.
pub fn build_hp_switch(switch_config: &HPSwitchConfig) -> (r: Option<HPSwitch>)
    ensures
        match r {
            Some(sw) => spec_ipv4_prefix(switch_config.ip@) && sw.ip@ == switch_config.ip@
                && sw.ports@ == spec_port_list(switch_config.ports@) && sw.location@
                == switch_config.location@,
            None => !spec_ipv4_prefix(switch_config.ip@),
        },
{
    if !is_valid_ipv4(switch_config.ip.as_str()) {
        return None;
    }
    let ports = get_port_list(switch_config);
    Some(HPSwitch::new(switch_config.ip.clone(), ports, switch_config.location.clone()))
}

} // verus!
