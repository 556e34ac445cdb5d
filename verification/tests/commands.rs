use phaneron_switcher::commands::{
    switcher_state_event, switcher_state_for_command, AppCommand, DoMixCommand,
    SetActiveInputCommand, SetNextInputCommand,
};
use phaneron_switcher::phaneron_ws_message::{
    ClientEvent, TraditionalMixerEmulatorState, TraditionalMixerEmulatorTransition,
};
use phaneron_switcher::snapshot::{Snapshot, Transition, VideoSource};

fn s(text: &str) -> String {
    text.to_string()
}

fn current() -> Snapshot {
    Snapshot {
        active_video_source_id: Some(s("in1")),
        next_video_source_id: Some(s("in2")),
        video_sources: vec![
            VideoSource { id: s("in1"), name: s("Camera 1") },
            VideoSource { id: s("in2"), name: s("Camera 2") },
        ],
        transition: Some(Transition::Mix { position: 0.5f32.to_bits() }),
    }
}

/// What the panel would show once the switcher took `state`.
fn shown(previous: &Snapshot, state: TraditionalMixerEmulatorState) -> Snapshot {
    Snapshot {
        active_video_source_id: state.active_input,
        next_video_source_id: state.next_input,
        video_sources: previous.video_sources.clone(),
        transition: state.transition.map(Transition::from),
    }
}

#[test]
fn set_active_input_keeps_preview_and_drops_transition() {
    let command = AppCommand::SetActiveInput(SetActiveInputCommand { input: s("in3") });
    let state = switcher_state_for_command(&command, &current());
    assert_eq!(
        state,
        TraditionalMixerEmulatorState { active_input: Some(s("in3")), next_input: Some(s("in2")), transition: None }
    );
}

#[test]
fn set_next_input_keeps_program_and_transition() {
    let command = AppCommand::SetNextInput(SetNextInputCommand { input: s("in3") });
    let state = switcher_state_for_command(&command, &current());
    assert_eq!(
        state,
        TraditionalMixerEmulatorState {
            active_input: Some(s("in1")),
            next_input: Some(s("in3")),
            transition: Some(TraditionalMixerEmulatorTransition::Mix { position: 0.5f32.to_bits() }),
        }
    );
}

#[test]
fn set_next_input_without_transition() {
    let mut snapshot = current();
    snapshot.transition = None;
    let command = AppCommand::SetNextInput(SetNextInputCommand { input: s("in3") });
    let state = switcher_state_for_command(&command, &snapshot);
    assert_eq!(state.transition, None);
}

#[test]
fn cut_swaps_program_and_preview() {
    let state = switcher_state_for_command(&AppCommand::DoCut, &current());
    assert_eq!(
        state,
        TraditionalMixerEmulatorState { active_input: Some(s("in2")), next_input: Some(s("in1")), transition: None }
    );
}

#[test]
fn cut_with_empty_preview() {
    let mut snapshot = current();
    snapshot.next_video_source_id = None;
    let state = switcher_state_for_command(&AppCommand::DoCut, &snapshot);
    assert_eq!(state.active_input, None);
    assert_eq!(state.next_input, Some(s("in1")));
}

#[test]
fn two_cuts_restore_program_and_preview() {
    let start = current();
    let after_first = shown(&start, switcher_state_for_command(&AppCommand::DoCut, &start));
    let after_second = shown(&after_first, switcher_state_for_command(&AppCommand::DoCut, &after_first));
    assert_eq!(after_second.active_video_source_id, start.active_video_source_id);
    assert_eq!(after_second.next_video_source_id, start.next_video_source_id);
}

#[test]
fn mix_sets_commanded_position() {
    let position = (1.0f32 - 0.3f32).to_bits();
    let command = AppCommand::DoMix(DoMixCommand { position });
    let state = switcher_state_for_command(&command, &current());
    assert_eq!(
        state,
        TraditionalMixerEmulatorState {
            active_input: Some(s("in1")),
            next_input: Some(s("in2")),
            transition: Some(TraditionalMixerEmulatorTransition::Mix { position }),
        }
    );
}

#[test]
fn set_next_input_then_shown_keeps_transition() {
    let start = current();
    let command = AppCommand::SetNextInput(SetNextInputCommand { input: s("in2") });
    let after = shown(&start, switcher_state_for_command(&command, &start));
    assert_eq!(after.transition, start.transition);
}

#[test]
fn switcher_state_event_addresses_switcher() {
    let event = switcher_state_event(s("{\"activeInput\":\"in2\"}"));
    match event {
        ClientEvent::NodeState(request) => {
            assert_eq!(request.node_id, "switcher");
            assert_eq!(request.state, "{\"activeInput\":\"in2\"}");
        }
        ClientEvent::Topics(_) => panic!("expected a node state event"),
    }
}
