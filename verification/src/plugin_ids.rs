//! Conversions between the plugin-identity record and its wire form, whose
//! fields carry the same numbers in differently sized integers.

use vstd::prelude::*;

verus! {

/// A plugin's identity as the program hands it around.
pub struct PluginIds {
    pub plugin_id: u32,
    pub swarm_pid: u32,
    /// The plugin's starting directory, as path text.
    pub initial_cwd: String,
    pub client_id: u16,
}

/// A plugin's identity as the wire format carries it.
pub struct ProtobufPluginIds {
    pub plugin_id: i32,
    pub swarm_pid: i32,
    pub initial_cwd: String,
    pub client_id: u32,
}

/// The program's version as the wire format carries it.
pub struct ProtobufSwarmVersion {
    pub version: String,
}

/// Read a plugin identity off the wire: each number reinterpreted in the
/// program's width, truncating; the directory text carried over. Never
/// fails.
pub fn plugin_ids_from_protobuf(p: ProtobufPluginIds) -> (r: PluginIds)
    ensures
        r.plugin_id == p.plugin_id as u32,
        r.swarm_pid == p.swarm_pid as u32,
        r.initial_cwd@ == p.initial_cwd@,
        r.client_id == p.client_id as u16,
{
    PluginIds {
        plugin_id: p.plugin_id as u32,
        swarm_pid: p.swarm_pid as u32,
        initial_cwd: p.initial_cwd,
        client_id: p.client_id as u16,
    }
}

/// Put a plugin identity on the wire: each number reinterpreted in the wire
/// width, truncating; the directory text carried over. Never fails.
pub fn plugin_ids_to_protobuf(p: PluginIds) -> (r: ProtobufPluginIds)
    ensures
        r.plugin_id == p.plugin_id as i32,
        r.swarm_pid == p.swarm_pid as i32,
        r.initial_cwd@ == p.initial_cwd@,
        r.client_id == p.client_id as u32,
{
    ProtobufPluginIds {
        plugin_id: p.plugin_id as i32,
        swarm_pid: p.swarm_pid as i32,
        initial_cwd: p.initial_cwd,
        client_id: p.client_id as u32,
    }
}

/// Put a version word on the wire. Never fails.
pub fn swarm_version_to_protobuf(version: &str) -> (r: ProtobufSwarmVersion)
    ensures
        r.version@ == version@,
{
    ProtobufSwarmVersion { version: version.to_owned() }
}

} // verus!
