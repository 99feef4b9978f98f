use vstd::prelude::*;
use super::fragment::FragmentOverlapPolicy;

verus! {

/// IPv4 settings.
#[derive(Debug, Clone, PartialEq)]
pub struct Ipv4Config {
    pub default_ttl: u8,
    pub min_mtu: u16,
    pub default_mtu: u16,
    pub verify_checksum: bool,
    pub process_options: bool,
    pub icmp_error_rate_limit: u32,
    pub allow_fragmentation: bool,
    pub df_flag: bool,
    pub reassembly_timeout_secs: u32,
    pub max_reassembly_entries: usize,
    pub max_fragments_per_datagram: usize,
    pub detect_fragment_overlap: bool,
    pub fragment_overlap_policy: FragmentOverlapPolicy,
}

impl Ipv4Config {
    /// Whether `c` holds the default settings.
    pub open spec fn is_default(c: Ipv4Config) -> bool {
        &&& c.default_ttl == 64
        &&& c.min_mtu == 576
        &&& c.default_mtu == 1500
        &&& c.verify_checksum
        &&& c.process_options
        &&& c.icmp_error_rate_limit == 100
        &&& c.allow_fragmentation
        &&& !c.df_flag
        &&& c.reassembly_timeout_secs == 30
        &&& c.max_reassembly_entries == 64
        &&& c.max_fragments_per_datagram == 16
        &&& c.detect_fragment_overlap
        &&& c.fragment_overlap_policy == FragmentOverlapPolicy::Drop
    }

    /// The default settings.
    pub fn new() -> (r: Self)
        ensures
            Self::is_default(r),
    {
        Ipv4Config {
            default_ttl: 64,
            min_mtu: 576,
            default_mtu: 1500,
            verify_checksum: true,
            process_options: true,
            icmp_error_rate_limit: 100,
            allow_fragmentation: true,
            df_flag: false,
            reassembly_timeout_secs: 30,
            max_reassembly_entries: 64,
            max_fragments_per_datagram: 16,
            detect_fragment_overlap: true,
            fragment_overlap_policy: FragmentOverlapPolicy::Drop,
        }
    }

    pub fn with_default_ttl(self, ttl: u8) -> (r: Self)
        ensures
            r == (Ipv4Config { default_ttl: ttl, ..self }),
    {
        Ipv4Config { default_ttl: ttl, ..self }
    }

    pub fn with_min_mtu(self, mtu: u16) -> (r: Self)
        ensures
            r == (Ipv4Config { min_mtu: mtu, ..self }),
    {
        Ipv4Config { min_mtu: mtu, ..self }
    }

    pub fn with_default_mtu(self, mtu: u16) -> (r: Self)
        ensures
            r == (Ipv4Config { default_mtu: mtu, ..self }),
    {
        Ipv4Config { default_mtu: mtu, ..self }
    }

    pub fn with_verify_checksum(self, verify: bool) -> (r: Self)
        ensures
            r == (Ipv4Config { verify_checksum: verify, ..self }),
    {
        Ipv4Config { verify_checksum: verify, ..self }
    }

    pub fn with_process_options(self, process: bool) -> (r: Self)
        ensures
            r == (Ipv4Config { process_options: process, ..self }),
    {
        Ipv4Config { process_options: process, ..self }
    }

    pub fn with_icmp_error_rate_limit(self, limit: u32) -> (r: Self)
        ensures
            r == (Ipv4Config { icmp_error_rate_limit: limit, ..self }),
    {
        Ipv4Config { icmp_error_rate_limit: limit, ..self }
    }

    pub fn with_allow_fragmentation(self, allow: bool) -> (r: Self)
        ensures
            r == (Ipv4Config { allow_fragmentation: allow, ..self }),
    {
        Ipv4Config { allow_fragmentation: allow, ..self }
    }

    pub fn with_df_flag(self, df: bool) -> (r: Self)
        ensures
            r == (Ipv4Config { df_flag: df, ..self }),
    {
        Ipv4Config { df_flag: df, ..self }
    }

    pub fn with_reassembly_timeout(self, timeout_secs: u32) -> (r: Self)
        ensures
            r == (Ipv4Config { reassembly_timeout_secs: timeout_secs, ..self }),
    {
        Ipv4Config { reassembly_timeout_secs: timeout_secs, ..self }
    }

    pub fn with_max_reassembly_entries(self, max: usize) -> (r: Self)
        ensures
            r == (Ipv4Config { max_reassembly_entries: max, ..self }),
    {
        Ipv4Config { max_reassembly_entries: max, ..self }
    }

    pub fn with_max_fragments_per_datagram(self, max: usize) -> (r: Self)
        ensures
            r == (Ipv4Config { max_fragments_per_datagram: max, ..self }),
    {
        Ipv4Config { max_fragments_per_datagram: max, ..self }
    }

    pub fn with_detect_fragment_overlap(self, detect: bool) -> (r: Self)
        ensures
            r == (Ipv4Config { detect_fragment_overlap: detect, ..self }),
    {
        Ipv4Config { detect_fragment_overlap: detect, ..self }
    }

    pub fn with_fragment_overlap_policy(self, policy: FragmentOverlapPolicy) -> (r: Self)
        ensures
            r == (Ipv4Config { fragment_overlap_policy: policy, ..self }),
    {
        Ipv4Config { fragment_overlap_policy: policy, ..self }
    }
}

impl Default for Ipv4Config {
    fn default() -> (r: Self)
        ensures
            Self::is_default(r),
    {
        Self::new()
    }
}

/// The default IPv4 settings, as a value to start from.
pub fn ipv4_config_default() -> (r: Ipv4Config)
    ensures
        Ipv4Config::is_default(r),
{
    Ipv4Config::new()
}

} // verus!
