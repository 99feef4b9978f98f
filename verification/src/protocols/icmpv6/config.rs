use vstd::prelude::*;

verus! {

/// ICMPv6 settings.
#[derive(Debug, Clone)]
pub struct Icmpv6Config {
    pub enable_echo_reply: bool,
    /// How long an echo request waits for its reply, in milliseconds.
    pub echo_timeout_ms: u64,
    pub max_pending_echoes: usize,
    pub accept_router_advertisements: bool,
    pub send_router_solicitation: bool,
    /// Seconds before the first router solicitation.
    pub router_solicitation_delay: u32,
    pub max_rs_retransmissions: u32,
    pub max_neighbor_cache_entries: usize,
    /// Milliseconds.
    pub default_reachable_time: u32,
    /// Milliseconds.
    pub default_retrans_timer: u32,
    pub enable_dad: bool,
    pub dad_transmits: u32,
    /// Seconds.
    pub dad_timeout: u32,
    pub accept_redirects: bool,
    /// Whether neighbor discovery messages must carry hop limit 255.
    pub verify_hop_limit: bool,
    /// Neighbor discovery messages per second.
    pub ndp_rate_limit: u32,
    pub drop_unknown_options: bool,
    pub enable_pmtu_discovery: bool,
    /// Minutes.
    pub pmtu_cache_timeout: u32,
    pub enable_mld: bool,
    pub mld_version: u32,
    /// Error messages per second.
    pub error_rate_limit: u32,
}

impl Icmpv6Config {
    /// Whether `c` holds the default settings.
    pub open spec fn is_default(c: Icmpv6Config) -> bool {
        &&& c.enable_echo_reply
        &&& c.echo_timeout_ms == 1000
        &&& c.max_pending_echoes == 100
        &&& c.accept_router_advertisements
        &&& c.send_router_solicitation
        &&& c.router_solicitation_delay == 1
        &&& c.max_rs_retransmissions == 3
        &&& c.max_neighbor_cache_entries == 256
        &&& c.default_reachable_time == 30000
        &&& c.default_retrans_timer == 1000
        &&& c.enable_dad
        &&& c.dad_transmits == 1
        &&& c.dad_timeout == 1
        &&& !c.accept_redirects
        &&& c.verify_hop_limit
        &&& c.ndp_rate_limit == 10
        &&& !c.drop_unknown_options
        &&& c.enable_pmtu_discovery
        &&& c.pmtu_cache_timeout == 10
        &&& !c.enable_mld
        &&& c.mld_version == 2
        &&& c.error_rate_limit == 10
    }
}

impl Default for Icmpv6Config {
    fn default() -> (r: Self)
        ensures
            Self::is_default(r),
    {
        Icmpv6Config {
            enable_echo_reply: true,
            echo_timeout_ms: 1000,
            max_pending_echoes: 100,
            accept_router_advertisements: true,
            send_router_solicitation: true,
            router_solicitation_delay: 1,
            max_rs_retransmissions: 3,
            max_neighbor_cache_entries: 256,
            default_reachable_time: 30000,
            default_retrans_timer: 1000,
            enable_dad: true,
            dad_transmits: 1,
            dad_timeout: 1,
            accept_redirects: false,
            verify_hop_limit: true,
            ndp_rate_limit: 10,
            drop_unknown_options: false,
            enable_pmtu_discovery: true,
            pmtu_cache_timeout: 10,
            enable_mld: false,
            mld_version: 2,
            error_rate_limit: 10,
        }
    }
}

/// The default ICMPv6 settings, as a value to start from.
pub fn icmpv6_config_default() -> (r: Icmpv6Config)
    ensures
        Icmpv6Config::is_default(r),
{
    Icmpv6Config::default()
}

} // verus!
