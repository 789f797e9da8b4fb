//! Configured measurement endpoints and their liveness flag.

use vstd::prelude::*;
use vstd::string::StringExecFns;

verus! {

/// One configured measurement endpoint.
#[derive(Debug)]
pub struct ServerInfo {
    /// Display name; the endpoint's identity for the operator.
    pub name: String,
    /// Network address in `host:port` form.
    pub address: String,
    /// Whether the most recent round got an answer from this endpoint.
    pub online: bool,
}

/// Mathematical model of a [`ServerInfo`].
pub struct ServerModel {
    pub name: Seq<char>,
    pub address: Seq<char>,
    pub online: bool,
}

impl View for ServerInfo {
    type V = ServerModel;

    open spec fn view(&self) -> ServerModel {
        ServerModel { name: self.name@, address: self.address@, online: self.online }
    }
}

impl Clone for ServerInfo {
    fn clone(&self) -> (copy: Self)
        ensures
            copy@ == self@,
    {
        ServerInfo { name: self.name.clone(), address: self.address.clone(), online: self.online }
    }
}

impl ServerInfo {
    /// A new endpoint with the given name and address, offline until a round
    /// says otherwise.
    pub fn new(name: &str, address: &str) -> (server: Self)
        ensures
            server@ == (ServerModel { name: name@, address: address@, online: false }),
    {
        ServerInfo {
            name: String::from_str(name),
            address: String::from_str(address),
            online: false,
        }
    }
}

/// The model of the endpoint list a fresh monitor starts with.
pub open spec fn default_servers() -> Seq<ServerModel> {
    seq![
        ServerModel { name: "m1"@, address: "127.0.0.27:9000"@, online: false },
        ServerModel { name: "m2"@, address: "127.0.0.28:9000"@, online: false },
        ServerModel { name: "m3"@, address: "127.0.0.29:9000"@, online: false },
    ]
}

/// View of a list of endpoints, element by element.
pub open spec fn servers_view(servers: Seq<ServerInfo>) -> Seq<ServerModel> {
    servers.map_values(|s: ServerInfo| s@)
}

/// Copies a list of endpoints.
pub fn copy_servers(servers: &Vec<ServerInfo>) -> (copy: Vec<ServerInfo>)
    ensures
        servers_view(copy@) == servers_view(servers@),
{
    let mut copy: Vec<ServerInfo> = Vec::new();
    let mut i: usize = 0;
    while i < servers.len()
        invariant
            i <= servers.len(),
            copy.len() == i,
            forall|j: int| 0 <= j < i ==> copy[j]@ == servers[j]@,
        decreases servers.len() - i,
    {
        copy.push(servers[i].clone());
        i += 1;
    }
    assert(servers_view(copy@) =~= servers_view(servers@));
    copy
}

/// The three endpoints of the stock rig, all offline.
pub fn create_default_servers() -> (servers: Vec<ServerInfo>)
    ensures
        servers_view(servers@) == default_servers(),
{
    let mut servers: Vec<ServerInfo> = Vec::new();
    servers.push(ServerInfo::new("m1", "127.0.0.27:9000"));
    servers.push(ServerInfo::new("m2", "127.0.0.28:9000"));
    servers.push(ServerInfo::new("m3", "127.0.0.29:9000"));
    assert(servers_view(servers@) =~= default_servers());
    servers
}

} // verus!
