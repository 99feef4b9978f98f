use vstd::prelude::*;

verus! {

/// IPv6 settings.
#[derive(Debug, Clone)]
pub struct Ipv6Config {
    pub default_hop_limit: u8,
    pub min_mtu: u16,
    pub max_packet_size: u16,
    pub enable_fragmentation: bool,
    pub enable_reassembly: bool,
    pub max_reassembly_entries: usize,
    /// Seconds.
    pub reassembly_timeout: u64,
}

impl Ipv6Config {
    /// Whether `c` holds the default settings.
    pub open spec fn is_default(c: Ipv6Config) -> bool {
        &&& c.default_hop_limit == 64
        &&& c.min_mtu == 1280
        &&& c.max_packet_size == 65535
        &&& !c.enable_fragmentation
        &&& !c.enable_reassembly
        &&& c.max_reassembly_entries == 256
        &&& c.reassembly_timeout == 60
    }

    /// The default settings.
    pub fn new() -> (r: Self)
        ensures
            Self::is_default(r),
    {
        Self::default()
    }

    /// These settings with fragmentation turned on or off.
    pub fn with_enable_fragmentation(self, enable: bool) -> (r: Self)
        ensures
            r == (Ipv6Config { enable_fragmentation: enable, ..self }),
    {
        let mut c = self;
        c.enable_fragmentation = enable;
        c
    }

    /// These settings with reassembly turned on or off.
    pub fn with_enable_reassembly(self, enable: bool) -> (r: Self)
        ensures
            r == (Ipv6Config { enable_reassembly: enable, ..self }),
    {
        let mut c = self;
        c.enable_reassembly = enable;
        c
    }
}

impl Default for Ipv6Config {
    fn default() -> (r: Self)
        ensures
            Self::is_default(r),
    {
        Ipv6Config {
            default_hop_limit: 64,
            min_mtu: 1280,
            max_packet_size: 65535,
            enable_fragmentation: false,
            enable_reassembly: false,
            max_reassembly_entries: 256,
            reassembly_timeout: 60,
        }
    }
}

} // verus!
