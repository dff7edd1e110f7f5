use vstd::prelude::*;

verus! {

/// Settings of one host.
#[derive(Debug, Clone)]
pub struct ClientSettings {
    /// Number of turns that each island runs when the host counts the turns
    /// itself.
    pub turns: u32,
    /// Number of islands on this host.
    pub islands: u32,
    pub network: NetworkSettings,
    /// Whether the islands of the host wait for one another after each turn.
    pub islands_sync: bool,
}

/// How a host finds the rest of the cluster.
#[derive(Debug, Clone)]
pub struct NetworkSettings {
    /// Whether this host runs the handshake for the others.
    pub is_coordinator: bool,
    /// Number of hosts in the cluster.
    pub hosts_num: u32,
    pub coordinator_ip: String,
    pub coordinator_rep_port: u32,
    pub coordinator_pub_port: u32,
    /// Where this host publishes; the address and the port number together
    /// name the host.
    pub host_ip: String,
    pub pub_port: u32,
    pub metrics_port: u32,
    pub global_sync: GlobalSyncSettings,
    pub map: MapSettings,
}

/// Whether and where a sync server drives the turns.
#[derive(Debug, Clone)]
pub struct GlobalSyncSettings {
    pub sync: bool,
    pub server_ip: String,
    pub server_rep_port: u32,
    pub server_pub_port: u32,
}

/// Settings of the map that islands may share.
#[derive(Debug, Clone)]
pub struct MapSettings {
    pub chunk_len: u64,
}

/// Settings of the sync server.
#[derive(Debug, Clone)]
pub struct ServerSettings {
    /// Number of hosts that the server drives.
    pub hosts: u32,
    /// Number of turns that it releases.
    pub turns: u32,
    pub ip: String,
    pub rep_port: u32,
    pub pub_port: u32,
    pub metrics_port: u32,
}

/// The three ways in which a host can take part in the handshake.
#[derive(Clone, Copy, Debug, PartialEq, Eq, Structural)]
pub enum Role {
    /// The host asks the sync server for the membership table.
    Synced,
    /// The host assembles the membership table for the others.
    Coordinator,
    /// The host asks the coordinator for the membership table.
    Participant,
}

impl NetworkSettings {
    /// The role that the settings give to the host. A sync server, where
    /// there is one, takes the handshake over from the coordinator.
    pub open spec fn spec_role(&self) -> Role {
        if self.global_sync.sync {
            Role::Synced
        } else if self.is_coordinator {
            Role::Coordinator
        } else {
            Role::Participant
        }
    }

    /// The role that the settings give to the host.
    #[verifier::when_used_as_spec(spec_role)]
    pub fn role(&self) -> (role: Role)
        ensures
            role == self.spec_role(),
    {
        if self.global_sync.sync {
            Role::Synced
        } else if self.is_coordinator {
            Role::Coordinator
        } else {
            Role::Participant
        }
    }
}

} // verus!
