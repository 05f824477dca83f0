//! The container records shared by the CLI and the Docker API: states, port
//! bindings, mounts, and what a container is created with and reported as.
use vstd::prelude::*;

verus! {

/// Lifecycle state of a container.
#[derive(Clone, Copy, Debug, PartialEq, Eq, Structural)]
pub enum ContainerState {
    Created,
    Running,
    Paused,
    Restarting,
    Removing,
    Exited,
    Dead,
}

/// A published port.
#[derive(Clone, Debug, PartialEq, Eq)]
pub struct PortBinding {
    pub host_ip: Option<String>,
    pub host_port: u16,
    pub container_port: u16,
    pub proto: String,
}

/// A host path or named volume mounted into a container.
#[derive(Clone, Debug, PartialEq, Eq)]
pub struct MountSpec {
    pub host_path: String,
    pub container_path: String,
    pub read_only: bool,
    pub volume_name: Option<String>,
}

/// What a container is created with.
#[derive(Clone, Debug, PartialEq, Eq)]
pub struct ContainerSpec {
    pub image: String,
    pub cmd: Vec<String>,
    pub env: Vec<String>,
    pub port_bindings: Vec<PortBinding>,
    pub mounts: Vec<MountSpec>,
    pub name: Option<String>,
    pub restart_policy: Option<String>,
    pub memory_limit: Option<u64>,
    pub cpu_shares: Option<u64>,
}

/// A container as a list reports it.
#[derive(Clone, Debug, PartialEq, Eq)]
pub struct ContainerSummary {
    pub id: String,
    pub names: Vec<String>,
    pub image: String,
    pub state: ContainerState,
    pub status: String,
    pub created: i64,
}

/// A container as an inspection reports it.
#[derive(Clone, Debug, PartialEq, Eq)]
pub struct ContainerInspect {
    pub id: String,
    pub name: String,
    pub image: String,
    pub state: ContainerState,
    pub status: String,
    pub port_bindings: Vec<PortBinding>,
    pub mounts: Vec<MountSpec>,
    pub env: Vec<String>,
}

} // verus!
