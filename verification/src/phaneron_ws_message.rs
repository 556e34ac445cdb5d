//! Messages exchanged with the Phaneron server: registration over HTTP, and
//! events over its WebSocket.
//!
//! Positions of mix transitions are IEEE 754 single-precision numbers; this
//! library carries them by their bit pattern (`f32::to_bits`) and never does
//! arithmetic on them.
use vstd::prelude::*;

use crate::string_map::StringMap;

verus! {

/// Body of the registration request (`userId` on the wire).
#[derive(Debug, Clone, PartialEq, Eq)]
pub struct RegisterRequest {
    pub user_id: String,
}

/// Answer to the registration request: the WebSocket URL to connect to.
#[derive(Debug, Clone, PartialEq, Eq)]
pub struct RegisterResponse {
    pub url: String,
}

/// An event sent by this client over the Phaneron WebSocket.
#[derive(Debug, Clone, PartialEq, Eq)]
pub enum ClientEvent {
    Topics(TopicsRequest),
    NodeState(NodeStateRequest),
}

/// Subscription to topics.
#[derive(Debug, Clone, PartialEq, Eq)]
pub struct TopicsRequest {
    pub topics: Vec<String>,
}

/// A new state for one node, itself encoded as JSON text.
#[derive(Debug, Clone, PartialEq, Eq)]
pub struct NodeStateRequest {
    pub node_id: String,
    pub state: String,
}

/// State of a flipper node.
#[derive(Debug, Clone, PartialEq, Eq)]
pub struct FlipperState {
    pub flipped: bool,
}

/// An event sent by the Phaneron server.
#[derive(Debug)]
pub enum ServerEvent {
    PhaneronState(PhaneronState),
}

/// The whole graph of the Phaneron server: its nodes, the video outputs and
/// inputs of each node (by node id), and the connections from an input to the
/// output that feeds it.
#[derive(Debug)]
pub struct PhaneronState {
    pub nodes: StringMap<PhaneronNode>,
    pub video_outputs: StringMap<Vec<String>>,
    pub video_inputs: StringMap<Vec<String>>,
    pub connections: StringMap<String>,
}

/// One node of the graph; `state` is the node's own state as JSON text.
#[derive(Debug, Clone, PartialEq, Eq)]
pub struct PhaneronNode {
    pub name: Option<String>,
    pub state: Option<String>,
}

/// State of the switcher node (a traditional vision mixer): the input on
/// program, the input on preview, and the transition in progress.
#[derive(Debug, Clone, PartialEq, Eq)]
pub struct TraditionalMixerEmulatorState {
    pub active_input: Option<String>,
    pub next_input: Option<String>,
    pub transition: Option<TraditionalMixerEmulatorTransition>,
}

/// A transition of the switcher; `position` is the bit pattern of the mix
/// position.
#[derive(Debug, Clone, Copy, PartialEq, Eq)]
pub enum TraditionalMixerEmulatorTransition {
    Mix { position: u32 },
}

} // verus!
