//! The guest network settings of the VM: a default, and a builder whose
//! unset fields fall back to it.
use vstd::prelude::*;
use crate::proxy::Ipv4;

verus! {

/// The addressing of the VM's virtual network.
#[derive(Clone, Copy, Debug)]
pub struct NetworkConfig {
    pub subnet_prefix: u8,
    pub gateway: Ipv4,
    pub guest_ip: Ipv4,
    pub mtu: u16,
    pub mac: [u8; 6],
}

/// The default network: 172.16.0.0/24 with the gateway at .1 and the guest
/// at .2, an MTU of 1500, and a locally administered MAC address.
pub open spec fn default_network() -> NetworkConfig {
    NetworkConfig {
        subnet_prefix: 24,
        gateway: Ipv4 { a: 172, b: 16, c: 0, d: 1 },
        guest_ip: Ipv4 { a: 172, b: 16, c: 0, d: 2 },
        mtu: 1500,
        mac: [2u8, 0u8, 0u8, 0u8, 0u8, 1u8],
    }
}

impl Default for NetworkConfig {
    fn default() -> (r: Self)
        ensures
            r == default_network(),
    {
        NetworkConfig {
            subnet_prefix: 24,
            gateway: Ipv4 { a: 172, b: 16, c: 0, d: 1 },
            guest_ip: Ipv4 { a: 172, b: 16, c: 0, d: 2 },
            mtu: 1500,
            mac: [2u8, 0u8, 0u8, 0u8, 0u8, 1u8],
        }
    }
}

impl NetworkConfig {
    /// A builder with nothing set.
    pub fn builder() -> (r: NetworkConfigBuilder)
        ensures
            r == NetworkConfigBuilder::unset(),
    {
        NetworkConfigBuilder::default()
    }
}

/// Network settings given so far; the rest come from the default.
#[derive(Clone, Copy, Debug)]
pub struct NetworkConfigBuilder {
    pub subnet_prefix: Option<u8>,
    pub gateway: Option<Ipv4>,
    pub guest_ip: Option<Ipv4>,
    pub mtu: Option<u16>,
    pub mac: Option<[u8; 6]>,
}

impl Default for NetworkConfigBuilder {
    fn default() -> (r: Self)
        ensures
            r == NetworkConfigBuilder::unset(),
    {
        NetworkConfigBuilder { subnet_prefix: None, gateway: None, guest_ip: None, mtu: None, mac: None }
    }
}

impl NetworkConfigBuilder {
    /// A builder with no field set.
    pub open spec fn unset() -> NetworkConfigBuilder {
        NetworkConfigBuilder { subnet_prefix: None, gateway: None, guest_ip: None, mtu: None, mac: None }
    }

    /// Sets the subnet prefix length.
    pub fn subnet_prefix(self, prefix: u8) -> (r: Self)
        ensures
            r == (NetworkConfigBuilder { subnet_prefix: Some(prefix), ..self }),
    {
        NetworkConfigBuilder { subnet_prefix: Some(prefix), ..self }
    }

    /// Sets the gateway address.
    pub fn gateway(self, ip: Ipv4) -> (r: Self)
        ensures
            r == (NetworkConfigBuilder { gateway: Some(ip), ..self }),
    {
        NetworkConfigBuilder { gateway: Some(ip), ..self }
    }

    /// Sets the guest's address.
    pub fn guest_ip(self, ip: Ipv4) -> (r: Self)
        ensures
            r == (NetworkConfigBuilder { guest_ip: Some(ip), ..self }),
    {
        NetworkConfigBuilder { guest_ip: Some(ip), ..self }
    }

    /// Sets the MTU, raised to 1500 when smaller.
    pub fn mtu(self, mtu: u16) -> (r: Self)
        ensures
            r == (NetworkConfigBuilder {
                mtu: Some(if mtu < 1500 { 1500u16 } else { mtu }),
                ..self
            }),
    {
        let m = if mtu < 1500 {
            1500
        } else {
            mtu
        };
        NetworkConfigBuilder { mtu: Some(m), ..self }
    }

    /// Sets the MAC address.
    pub fn mac(self, mac: [u8; 6]) -> (r: Self)
        ensures
            r == (NetworkConfigBuilder { mac: Some(mac), ..self }),
    {
        NetworkConfigBuilder { mac: Some(mac), ..self }
    }

    /// The settings: each one given, or the default's.
    pub fn build(self) -> (r: NetworkConfig)
        ensures
            r.subnet_prefix == match self.subnet_prefix {
                Some(v) => v,
                None => default_network().subnet_prefix,
            },
            r.gateway == match self.gateway {
                Some(v) => v,
                None => default_network().gateway,
            },
            r.guest_ip == match self.guest_ip {
                Some(v) => v,
                None => default_network().guest_ip,
            },
            r.mtu == match self.mtu {
                Some(v) => v,
                None => default_network().mtu,
            },
            r.mac == match self.mac {
                Some(v) => v,
                None => default_network().mac,
            },
    {
        let defaults = NetworkConfig::default();
        NetworkConfig {
            subnet_prefix: match self.subnet_prefix {
                Some(v) => v,
                None => defaults.subnet_prefix,
            },
            gateway: match self.gateway {
                Some(v) => v,
                None => defaults.gateway,
            },
            guest_ip: match self.guest_ip {
                Some(v) => v,
                None => defaults.guest_ip,
            },
            mtu: match self.mtu {
                Some(v) => v,
                None => defaults.mtu,
            },
            mac: match self.mac {
                Some(v) => v,
                None => defaults.mac,
            },
        }
    }
}

} // verus!
