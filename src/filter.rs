//! Contexts: where and how a value is about to leave the program.
use vstd::prelude::*;

verus! {

/// Access mode of a file that a value is written to.
#[derive(Clone, Copy, Debug, PartialEq, Eq, Structural)]
pub enum Permission {
    ReadOnly,
    ReadWrite,
    WriteOnly,
}

/// A release into a file.
pub struct FileContext {
    pub file_name: String,
    pub path: String,
    pub permission: Permission,
}

/// An IP address, held as its octets (version 4) or its segments (version 6).
#[derive(Clone, Copy, Debug, PartialEq, Eq, Structural)]
pub enum IpAddress {
    V4(u8, u8, u8, u8),
    V6(u16, u16, u16, u16, u16, u16, u16, u16),
}

/// An outbound connection to a remote peer.
pub struct RemoteConnectContext {
    pub remote_ip_address: IpAddress,
    pub port: u16,
}

/// A socket that listens for inbound connections.
pub struct ListenConnectionsContext {
    pub ip_address: IpAddress,
}

/// A caller-defined context: a tag naming the kind of payload, and its bytes.
/// Only a policy that knows the tag can make sense of the payload.
pub struct CustomContext {
    pub kind: String,
    pub payload: Vec<u8>,
}

/// Where a value is about to leave the program.
pub enum Context {
    File(FileContext),
    ClientNetwork(RemoteConnectContext),
    ServerNetwork(ListenConnectionsContext),
    /// Free-form attributes, keyed by name.
    KVContext(std::collections::HashMap<String, String>),
    CustomContext(CustomContext),
}

} // verus!
