//! Commands from the panel, and the switcher state that each asks for.
//!
//! A command is answered by sending the switcher node a whole new state,
//! built from the command and from the snapshot the panel last showed.
use vstd::prelude::*;

use crate::phaneron_ws_message::{
    ClientEvent, NodeStateRequest, TraditionalMixerEmulatorState,
    TraditionalMixerEmulatorTransition,
};
use crate::phaneron_ws_message::PhaneronState;
use crate::snapshot::{
    clone_optional, is_snapshot_of, lemma_transition_round_trip, switcher_id, switcher_node_id,
    Snapshot, Transition,
};
use vstd::std_specs::convert::FromSpec;

verus! {

/// A command sent by the panel.
#[derive(Debug, Clone, PartialEq, Eq)]
pub enum AppCommand {
    SetActiveInput(SetActiveInputCommand),
    SetNextInput(SetNextInputCommand),
    DoCut,
    DoMix(DoMixCommand),
}

/// Put `input` on program.
#[derive(Debug, Clone, PartialEq, Eq)]
pub struct SetActiveInputCommand {
    pub input: String,
}

/// Put `input` on preview.
#[derive(Debug, Clone, PartialEq, Eq)]
pub struct SetNextInputCommand {
    pub input: String,
}

/// Move the mix transition.  `position` is the bit pattern of the position
/// the switcher's mix is to take (the panel's fader runs the other way: this
/// is one minus the fader position).
#[derive(Debug, Clone, Copy, PartialEq, Eq)]
pub struct DoMixCommand {
    pub position: u32,
}

/// The switcher's transition for the panel's.
pub open spec fn switcher_transition(t: Option<Transition>) -> Option<
    TraditionalMixerEmulatorTransition,
> {
    match t {
        Some(t) => Some(TraditionalMixerEmulatorTransition::from_spec(t)),
        None => None,
    }
}

/// The switcher state that `command` asks for, given the snapshot `current`:
/// - set active input: that input on program, preview kept, no transition;
/// - set next input: program kept, that input on preview, transition kept;
/// - cut: program and preview swapped, no transition;
/// - mix: program and preview kept, a mix at the command's position.
pub open spec fn switcher_state_after(command: AppCommand, current: Snapshot) -> TraditionalMixerEmulatorState {
    match command {
        AppCommand::SetActiveInput(c) => TraditionalMixerEmulatorState {
            active_input: Some(c.input),
            next_input: current.next_video_source_id,
            transition: None,
        },
        AppCommand::SetNextInput(c) => TraditionalMixerEmulatorState {
            active_input: current.active_video_source_id,
            next_input: Some(c.input),
            transition: switcher_transition(current.transition),
        },
        AppCommand::DoCut => TraditionalMixerEmulatorState {
            active_input: current.next_video_source_id,
            next_input: current.active_video_source_id,
            transition: None,
        },
        AppCommand::DoMix(c) => TraditionalMixerEmulatorState {
            active_input: current.active_video_source_id,
            next_input: current.next_video_source_id,
            transition: Some(TraditionalMixerEmulatorTransition::Mix { position: c.position }),
        },
    }
}

/// The switcher state that `command` asks for, given the snapshot the panel
/// last showed.
pub fn switcher_state_for_command(command: &AppCommand, current: &Snapshot) -> (r:
    TraditionalMixerEmulatorState)
    ensures
        r == switcher_state_after(*command, *current),
{
    match command {
        AppCommand::SetActiveInput(c) => TraditionalMixerEmulatorState {
            active_input: Some(c.input.clone()),
            next_input: clone_optional(&current.next_video_source_id),
            transition: None,
        },
        AppCommand::SetNextInput(c) => {
            let transition = match current.transition {
                Some(t) => Some(TraditionalMixerEmulatorTransition::from(t)),
                None => None,
            };
            TraditionalMixerEmulatorState {
                active_input: clone_optional(&current.active_video_source_id),
                next_input: Some(c.input.clone()),
                transition,
            }
        },
        AppCommand::DoCut => TraditionalMixerEmulatorState {
            active_input: clone_optional(&current.next_video_source_id),
            next_input: clone_optional(&current.active_video_source_id),
            transition: None,
        },
        AppCommand::DoMix(c) => TraditionalMixerEmulatorState {
            active_input: clone_optional(&current.active_video_source_id),
            next_input: clone_optional(&current.next_video_source_id),
            transition: Some(TraditionalMixerEmulatorTransition::Mix { position: c.position }),
        },
    }
}

/// The event that hands the switcher node its new state, given as JSON text.
pub fn switcher_state_event(state_json: String) -> (e: ClientEvent)
    ensures
        e matches ClientEvent::NodeState(request) && request.node_id@ == switcher_id()
            && request.state == state_json,
{
    ClientEvent::NodeState(NodeStateRequest { node_id: switcher_node_id(), state: state_json })
}

/// A cut puts what was on preview on program and what was on program on
/// preview, and ends the transition: whatever graph the server reports with
/// the switcher in the state the cut asked for, the panel shows them swapped.
pub proof fn lemma_cut_swaps_program_and_preview(
    state: PhaneronState,
    current: Snapshot,
    shown: Snapshot,
)
    requires
        is_snapshot_of(state, switcher_state_after(AppCommand::DoCut, current), shown),
    ensures
        shown.active_video_source_id == current.next_video_source_id,
        shown.next_video_source_id == current.active_video_source_id,
        shown.transition is None,
{
}

/// Two cuts in a row bring back the program and preview the panel started
/// from.
pub proof fn lemma_two_cuts_restore_program_and_preview(
    first_state: PhaneronState,
    second_state: PhaneronState,
    current: Snapshot,
    after_first: Snapshot,
    after_second: Snapshot,
)
    requires
        is_snapshot_of(first_state, switcher_state_after(AppCommand::DoCut, current), after_first),
        is_snapshot_of(
            second_state,
            switcher_state_after(AppCommand::DoCut, after_first),
            after_second,
        ),
    ensures
        after_second.active_video_source_id == current.active_video_source_id,
        after_second.next_video_source_id == current.next_video_source_id,
{
}

/// Once the switcher takes the state that setting the active input asked
/// for, the panel shows that input on program, keeps preview, and shows no
/// transition.
pub proof fn lemma_set_active_input_shown(
    state: PhaneronState,
    current: Snapshot,
    command: SetActiveInputCommand,
    shown: Snapshot,
)
    requires
        is_snapshot_of(
            state,
            switcher_state_after(AppCommand::SetActiveInput(command), current),
            shown,
        ),
    ensures
        shown.active_video_source_id == Some(command.input),
        shown.next_video_source_id == current.next_video_source_id,
        shown.transition is None,
{
}

/// Once the switcher takes the state that setting the next input asked for,
/// the panel shows that input on preview and keeps both program and the
/// transition it showed before.
pub proof fn lemma_set_next_input_shown(
    state: PhaneronState,
    current: Snapshot,
    command: SetNextInputCommand,
    shown: Snapshot,
)
    requires
        is_snapshot_of(
            state,
            switcher_state_after(AppCommand::SetNextInput(command), current),
            shown,
        ),
    ensures
        shown.active_video_source_id == current.active_video_source_id,
        shown.next_video_source_id == Some(command.input),
        shown.transition == current.transition,
{
    if let Some(t) = current.transition {
        lemma_transition_round_trip(t, TraditionalMixerEmulatorTransition::from_spec(t));
    }
}

/// Once the switcher takes the state that a mix asked for, the panel keeps
/// program and preview and shows a mix at the commanded position.
pub proof fn lemma_mix_shown(
    state: PhaneronState,
    current: Snapshot,
    command: DoMixCommand,
    shown: Snapshot,
)
    requires
        is_snapshot_of(state, switcher_state_after(AppCommand::DoMix(command), current), shown),
    ensures
        shown.active_video_source_id == current.active_video_source_id,
        shown.next_video_source_id == current.next_video_source_id,
        shown.transition == Some(Transition::Mix { position: command.position }),
{
}

} // verus!
