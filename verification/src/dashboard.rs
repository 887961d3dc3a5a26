//! The records that the reporting side shows of a fleet: activity,
//! databases, bandwidth, connection health, updates, maintenance tasks,
//! backups, load balancing, access and subsystems.

use vstd::prelude::*;

verus! {

/// Something a player did.
#[derive(Debug)]
pub struct PlayerActivity {
    /// Name of the player.
    pub player: String,
    /// What the player did.
    pub action: String,
    /// When, in words.
    pub time: String,
    /// Address of the player's avatar image.
    pub avatar: String,
}

/// A database instance.
#[derive(Debug)]
pub struct DatabaseInfo {
    pub name: String,
    /// Geographic region.
    pub region: String,
    /// Size, with its unit.
    pub size: String,
    /// Kind of database, such as graph or relational.
    pub db_type: String,
    /// Network address.
    pub address: String,
    pub queries_per_second: u32,
    pub active_connections: u32,
}

/// Bandwidth use of one server.
#[derive(Debug)]
pub struct ServerBandwidth {
    pub name: String,
    /// The cluster that the server belongs to.
    pub cluster: String,
    /// Megabytes per second.
    pub bandwidth: u32,
}

/// Health of the connection to one server.
#[derive(Debug)]
pub struct ConnectionHealth {
    pub server: String,
    pub healthy: bool,
    /// Round trip in milliseconds.
    pub ping: u32,
    /// When the connection was last checked.
    pub last_checked: String,
}

/// An update that can be installed.
#[derive(Debug)]
pub struct UpdateInfo {
    pub id: u32,
    pub name: String,
    pub version: String,
    /// Size of the package, with its unit.
    pub size: String,
    pub importance: String,
}

/// An update that was installed, or failed to be.
#[derive(Debug)]
pub struct UpdateHistory {
    pub id: u32,
    pub name: String,
    pub version: String,
    pub date: String,
    pub status: String,
}

/// A maintenance task and its schedule.
#[derive(Debug)]
pub struct ScheduledTask {
    pub id: u32,
    pub name: String,
    pub description: String,
    /// When the task runs, in cron notation.
    pub schedule: String,
    /// The system or component that the task works on.
    pub target: String,
    pub status: String,
}

/// One run of a maintenance task.
#[derive(Debug)]
pub struct TaskHistory {
    pub id: u32,
    pub name: String,
    pub execution_time: String,
    pub status: String,
    pub duration: String,
}

/// A backup.
#[derive(Debug)]
pub struct Backup {
    pub id: u32,
    pub name: String,
    pub date: String,
    /// Size, with its unit.
    pub size: String,
    pub status: String,
}

/// The thresholds by which load is balanced.
#[derive(Clone, Copy, Debug, PartialEq, Eq, Structural)]
pub struct LoadBalancingPolicy {
    /// Most players in a region.
    pub region_size: u32,
    /// Players at which a new shard is made.
    pub shard_threshold: u32,
    /// Most players on a server.
    pub max_players_per_server: u32,
    /// Players at which a new server is started.
    pub server_spawn_threshold: u32,
}

/// A user and what the user may do.
#[derive(Debug)]
pub struct UserAccess {
    pub id: u32,
    pub name: String,
    pub email: String,
    pub role: String,
    pub permissions: Vec<String>,
}

/// One option of a subsystem's configuration.
#[derive(Debug)]
pub struct SubsystemConfig {
    pub name: String,
    /// Kind of option, such as text or number.
    pub config_type: String,
    /// The values to choose from, where the option has a fixed set.
    pub options: Option<Vec<String>>,
}

/// A subsystem of the application.
#[derive(Debug)]
pub struct Subsystem {
    pub name: String,
    pub enabled: bool,
    pub icon: String,
    pub config: Vec<SubsystemConfig>,
}

} // verus!
