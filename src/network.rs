//! Addresses and transport outcomes as plain values.
use vstd::prelude::*;

verus! {

pub const PROTOCOL_VER: u32 = 1;

pub const PORT: u16 = 53300;

/// 255.255.255.255
pub const BROADCAST_IP: u32 = 0xffff_ffff;

/// What a transport operation reports when it fails; `Blocked` means only
/// that nothing was ready.
#[derive(Debug, PartialEq, Eq)]
pub enum NetworkError {
    Connect(String),
    Write(String),
    Read(String),
    Blocked,
    Init(String),
    Unexpected(String),
}

/// An IPv4 address, as a big-endian number, and a port.
#[derive(Debug, PartialEq, Eq, Structural, Clone, Copy, Hash)]
pub struct PeerAddr {
    pub ip: u32,
    pub port: u16,
}

/// Whether `ip` lies in 127.0.0.0/8.
pub open spec fn is_loopback_ip(ip: u32) -> bool {
    ip / 0x100_0000 == 127
}

pub open spec fn broadcast_addr() -> PeerAddr {
    PeerAddr { ip: BROADCAST_IP, port: PORT }
}

impl PeerAddr {
    pub fn new(ip: u32, port: u16) -> (r: PeerAddr)
        ensures
            r == (PeerAddr { ip, port }),
    {
        PeerAddr { ip, port }
    }

    /// The discovery target: the broadcast address on the fixed port.
    pub fn broadcast() -> (r: PeerAddr)
        ensures
            r == broadcast_addr(),
    {
        PeerAddr { ip: BROADCAST_IP, port: PORT }
    }

    pub fn is_loopback(&self) -> (r: bool)
        ensures
            r == is_loopback_ip(self.ip),
    {
        self.ip / 0x100_0000 == 127
    }
}

} // verus!
