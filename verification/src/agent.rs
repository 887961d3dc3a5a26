//! The records that an agent on a host reports of itself and of what runs
//! there: application instances, volumes and networks.

use std::collections::HashMap;
use vstd::prelude::*;

verus! {

/// A port of a container, published on the host.
#[derive(Clone, Debug)]
pub struct PortMapping {
    pub host_port: u16,
    pub container_port: u16,
    pub protocol: String,
}

/// A directory of the host, mounted into a container.
#[derive(Clone, Debug)]
pub struct VolumeMapping {
    pub host_path: String,
    pub container_path: String,
}

/// An application instance as the agent sees it.
#[derive(Clone, Debug)]
pub struct AppInstance {
    pub id: String,
    pub name: String,
    pub image: String,
    pub status: String,
    pub created_at: String,
    pub ports: Vec<PortMapping>,
    pub environment: HashMap<String, String>,
    pub volumes: Vec<VolumeMapping>,
    pub agent_id: String,
}

/// A request to start an application instance.
#[derive(Clone, Debug)]
pub struct AppInstanceRequest {
    pub name: String,
    pub image: String,
    pub ports: Option<Vec<PortMapping>>,
    pub environment: Option<HashMap<String, String>>,
    pub volumes: Option<Vec<VolumeMapping>>,
}

/// A volume of the engine.
#[derive(Clone, Debug)]
pub struct VolumeInfo {
    pub name: String,
    pub mountpoint: String,
    pub labels: HashMap<String, String>,
    pub created_at: String,
}

/// A request to create a volume.
#[derive(Clone, Debug)]
pub struct VolumeCreateRequest {
    pub name: String,
    pub labels: Option<HashMap<String, String>>,
}

/// A container's place in a network.
#[derive(Clone, Debug)]
pub struct NetworkContainerInfo {
    pub name: String,
    pub endpoint_id: String,
    pub ipv4_address: String,
}

/// A network of the engine and the containers attached to it.
#[derive(Clone, Debug)]
pub struct NetworkInfo {
    pub id: String,
    pub name: String,
    pub driver: String,
    pub scope: String,
    pub containers: HashMap<String, NetworkContainerInfo>,
}

/// A request to create a network.
#[derive(Clone, Debug)]
pub struct NetworkCreateRequest {
    pub name: String,
    pub driver: Option<String>,
    pub labels: Option<HashMap<String, String>>,
}

/// What a host has to run things on.
#[derive(Clone, Copy, Debug, PartialEq, Eq, Structural)]
pub struct SystemResources {
    pub cpu_count: usize,
    pub memory_total: u64,
    pub memory_available: u64,
    pub disk_total: u64,
    pub disk_available: u64,
}

/// An agent and the host it runs on.
#[derive(Clone, Debug)]
pub struct AgentInfo {
    pub id: String,
    pub name: String,
    pub version: String,
    pub platform: String,
    pub instance_count: usize,
    pub status: String,
    pub resources: SystemResources,
}

} // verus!
