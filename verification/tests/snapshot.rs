use phaneron_switcher::phaneron_ws_message::{
    PhaneronNode, PhaneronState, TraditionalMixerEmulatorState,
    TraditionalMixerEmulatorTransition,
};
use phaneron_switcher::snapshot::{
    clone_optional, is_snapshot_resolvable, output_owners, snapshot_from_state,
    switcher_node_id, switcher_state_text, Transition, VideoSource,
};
use phaneron_switcher::string_map::StringMap;

fn s(text: &str) -> String {
    text.to_string()
}

fn strings(items: &[&str]) -> Vec<String> {
    items.iter().map(|t| t.to_string()).collect()
}

fn node(name: Option<&str>, state: Option<&str>) -> PhaneronNode {
    PhaneronNode { name: name.map(s), state: state.map(s) }
}

/// A switcher with three inputs, two cameras feeding the first two.
fn studio() -> PhaneronState {
    let mut nodes = StringMap::new();
    nodes.insert(s("switcher"), node(Some("Switcher"), Some("{\"activeInput\":\"in1\"}")));
    nodes.insert(s("cam1"), node(Some("Camera 1"), None));
    nodes.insert(s("cam2"), node(None, None));
    let mut video_outputs = StringMap::new();
    video_outputs.insert(s("cam1"), strings(&["out1"]));
    video_outputs.insert(s("cam2"), strings(&["out2", "out2b"]));
    video_outputs.insert(s("switcher"), strings(&["pgm"]));
    let mut video_inputs = StringMap::new();
    video_inputs.insert(s("switcher"), strings(&["in1", "in2", "in3"]));
    let mut connections = StringMap::new();
    connections.insert(s("in1"), s("out1"));
    connections.insert(s("in2"), s("out2"));
    PhaneronState { nodes, video_outputs, video_inputs, connections }
}

fn switcher_state() -> TraditionalMixerEmulatorState {
    TraditionalMixerEmulatorState {
        active_input: Some(s("in1")),
        next_input: Some(s("in2")),
        transition: Some(TraditionalMixerEmulatorTransition::Mix { position: 0.25f32.to_bits() }),
    }
}

#[test]
fn switcher_id_is_switcher() {
    assert_eq!(switcher_node_id(), "switcher");
}

#[test]
fn switcher_state_text_reads_switcher_node() {
    let state = studio();
    assert_eq!(switcher_state_text(&state), Some(s("{\"activeInput\":\"in1\"}")));
    let mut nodes = StringMap::new();
    nodes.insert(s("switcher"), node(None, None));
    let bare = PhaneronState {
        nodes,
        video_outputs: StringMap::new(),
        video_inputs: StringMap::new(),
        connections: StringMap::new(),
    };
    assert_eq!(switcher_state_text(&bare), None);
}

#[test]
fn output_owners_indexes_every_output() {
    let state = studio();
    let owners = output_owners(&state);
    assert_eq!(owners.len(), 4);
    assert_eq!(owners.get(&s("out1")), Some(&s("cam1")));
    assert_eq!(owners.get(&s("out2")), Some(&s("cam2")));
    assert_eq!(owners.get(&s("out2b")), Some(&s("cam2")));
    assert_eq!(owners.get(&s("pgm")), Some(&s("switcher")));
    assert_eq!(owners.get(&s("in1")), None);
}

#[test]
fn output_owners_skips_outputs_of_unknown_nodes() {
    let mut state = studio();
    state.video_outputs.insert(s("ghost"), strings(&["out9"]));
    let owners = output_owners(&state);
    assert_eq!(owners.get(&s("out9")), None);
    assert_eq!(owners.len(), 4);
}

#[test]
fn output_owners_of_shared_output_is_last_lister() {
    let mut state = studio();
    state.video_outputs.insert(s("cam1"), strings(&["out1", "out2"]));
    let owners = output_owners(&state);
    // cam2 is visited after cam1, so it owns the shared output.
    assert_eq!(owners.get(&s("out2")), Some(&s("cam2")));
    assert_eq!(owners.get(&s("out1")), Some(&s("cam1")));
}

#[test]
fn snapshot_lists_connected_inputs_with_names() {
    let state = studio();
    assert!(is_snapshot_resolvable(&state));
    let snapshot = snapshot_from_state(&state, switcher_state());
    assert_eq!(snapshot.active_video_source_id, Some(s("in1")));
    assert_eq!(snapshot.next_video_source_id, Some(s("in2")));
    assert_eq!(snapshot.transition, Some(Transition::Mix { position: 0.25f32.to_bits() }));
    assert_eq!(
        snapshot.video_sources,
        vec![
            VideoSource { id: s("in1"), name: s("Camera 1") },
            VideoSource { id: s("in2"), name: s("cam2") },
        ]
    );
}

#[test]
fn snapshot_without_transition() {
    let state = studio();
    let switcher = TraditionalMixerEmulatorState { active_input: None, next_input: None, transition: None };
    let snapshot = snapshot_from_state(&state, switcher);
    assert_eq!(snapshot.active_video_source_id, None);
    assert_eq!(snapshot.next_video_source_id, None);
    assert_eq!(snapshot.transition, None);
    assert_eq!(snapshot.video_sources.len(), 2);
}

#[test]
fn snapshot_follows_input_order() {
    let mut state = studio();
    state.video_inputs.insert(s("switcher"), strings(&["in2", "in3", "in1"]));
    let snapshot = snapshot_from_state(&state, switcher_state());
    let ids: Vec<&str> = snapshot.video_sources.iter().map(|v| v.id.as_str()).collect();
    assert_eq!(ids, vec!["in2", "in1"]);
}

#[test]
fn not_resolvable_without_switcher_inputs() {
    let mut state = studio();
    state.video_inputs = StringMap::new();
    assert!(!is_snapshot_resolvable(&state));
}

#[test]
fn not_resolvable_with_dangling_connection() {
    let mut state = studio();
    state.connections.insert(s("in3"), s("nowhere"));
    assert!(!is_snapshot_resolvable(&state));
}

#[test]
fn dangling_connection_elsewhere_is_harmless() {
    let mut state = studio();
    state.connections.insert(s("other-input"), s("nowhere"));
    assert!(is_snapshot_resolvable(&state));
}

#[test]
fn transition_conversions_round_trip() {
    let position = 0.75f32.to_bits();
    let switcher = TraditionalMixerEmulatorTransition::Mix { position };
    let panel = Transition::from(switcher);
    assert_eq!(panel, Transition::Mix { position });
    assert_eq!(TraditionalMixerEmulatorTransition::from(panel), switcher);
    assert_eq!(f32::from_bits(match panel { Transition::Mix { position } => position }), 0.75);
}

#[test]
fn clone_optional_copies() {
    assert_eq!(clone_optional(&Some(s("x"))), Some(s("x")));
    assert_eq!(clone_optional(&None), None);
}

#[test]
fn shared_output_is_named_after_last_lister() {
    let mut state = studio();
    state.video_outputs.insert(s("cam1"), strings(&["out1", "out2"]));
    let snapshot = snapshot_from_state(&state, switcher_state());
    assert_eq!(snapshot.video_sources[1], VideoSource { id: s("in2"), name: s("cam2") });

    let mut nodes = StringMap::new();
    nodes.insert(s("switcher"), node(None, None));
    nodes.insert(s("cam2"), node(None, None));
    nodes.insert(s("cam1"), node(Some("Camera 1"), None));
    state.nodes = nodes;
    let snapshot = snapshot_from_state(&state, switcher_state());
    assert_eq!(snapshot.video_sources[1], VideoSource { id: s("in2"), name: s("Camera 1") });
}
