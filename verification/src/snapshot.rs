//! The panel's view of the switcher: which video sources it can switch
//! between, which is on program and which on preview, and the transition in
//! progress.  It is derived from the graph that the Phaneron server reports.
use vstd::prelude::*;

use crate::phaneron_ws_message::{
    PhaneronNode, PhaneronState, TraditionalMixerEmulatorState,
    TraditionalMixerEmulatorTransition,
};
use crate::string_map::StringMap;
use vstd::std_specs::convert::FromSpec;

verus! {

/// What the panel shows of the switcher.
#[derive(Debug, Clone, PartialEq, Eq)]
pub struct Snapshot {
    pub active_video_source_id: Option<String>,
    pub next_video_source_id: Option<String>,
    pub video_sources: Vec<VideoSource>,
    pub transition: Option<Transition>,
}

/// A switcher input that something feeds, with the name of what feeds it.
#[derive(Debug, Clone, PartialEq, Eq)]
pub struct VideoSource {
    pub id: String,
    pub name: String,
}

/// A transition as the panel shows it; `position` is the bit pattern of the
/// mix position.
#[derive(Debug, Clone, Copy, PartialEq, Eq)]
pub enum Transition {
    Mix { position: u32 },
}

impl From<TraditionalMixerEmulatorTransition> for Transition {
    fn from(transition: TraditionalMixerEmulatorTransition) -> (r: Self) {
        match transition {
            TraditionalMixerEmulatorTransition::Mix { position } => Transition::Mix { position },
        }
    }
}

impl vstd::std_specs::convert::FromSpecImpl<TraditionalMixerEmulatorTransition> for Transition {
    open spec fn obeys_from_spec() -> bool {
        true
    }

    open spec fn from_spec(v: TraditionalMixerEmulatorTransition) -> Self {
        match v {
            TraditionalMixerEmulatorTransition::Mix { position } => Transition::Mix { position },
        }
    }
}

impl From<Transition> for TraditionalMixerEmulatorTransition {
    fn from(transition: Transition) -> (r: Self) {
        match transition {
            Transition::Mix { position } => TraditionalMixerEmulatorTransition::Mix { position },
        }
    }
}

impl vstd::std_specs::convert::FromSpecImpl<Transition> for TraditionalMixerEmulatorTransition {
    open spec fn obeys_from_spec() -> bool {
        true
    }

    open spec fn from_spec(v: Transition) -> Self {
        match v {
            Transition::Mix { position } => TraditionalMixerEmulatorTransition::Mix { position },
        }
    }
}

/// A transition converted back and forth is the same transition, both ways.
pub proof fn lemma_transition_round_trip(
    panel: Transition,
    switcher: TraditionalMixerEmulatorTransition,
)
    ensures
        Transition::from_spec(TraditionalMixerEmulatorTransition::from_spec(panel)) == panel,
        TraditionalMixerEmulatorTransition::from_spec(Transition::from_spec(switcher)) == switcher,
{
}

/// The id of the switcher node, `switcher`.
pub open spec fn switcher_id() -> Seq<char> {
    seq!['s', 'w', 'i', 't', 'c', 'h', 'e', 'r']
}

/// The id of the switcher node.
pub fn switcher_node_id() -> (id: String)
    ensures
        id@ == switcher_id(),
{
    let id = String::from_str("switcher");
    proof {
        reveal_strlit("switcher");
    }
    id
}

/// A list of strings, each taken by its characters.
pub open spec fn string_views(v: Seq<String>) -> Seq<Seq<char>> {
    v.map_values(|s: String| s@)
}

/// `node_id` names a node of the graph that lists `output` among its video
/// outputs.
pub open spec fn lists_output(state: PhaneronState, node_id: Seq<char>, output: Seq<char>) -> bool {
    &&& state.nodes@.contains_key(node_id)
    &&& state.video_outputs@.contains_key(node_id)
    &&& string_views(state.video_outputs@[node_id]@).contains(output)
}

/// Some node of the graph lists `output` among its video outputs.
pub open spec fn output_has_owner(state: PhaneronState, output: Seq<char>) -> bool {
    exists|node_id: Seq<char>| #[trigger] lists_output(state, node_id, output)
}

/// The inputs of the switcher node, in order.
pub open spec fn switcher_inputs(state: PhaneronState) -> Seq<Seq<char>> {
    string_views(state.video_inputs@[switcher_id()]@)
}

/// The inputs, in order, that a connection feeds.
pub open spec fn connected_inputs(inputs: Seq<Seq<char>>, connections: Map<Seq<char>, String>) -> Seq<
    Seq<char>,
>
    decreases inputs.len(),
{
    if inputs.len() == 0 {
        Seq::empty()
    } else {
        let rest = connected_inputs(inputs.drop_last(), connections);
        if connections.contains_key(inputs.last()) {
            rest.push(inputs.last())
        } else {
            rest
        }
    }
}

/// The name a node is shown by: its own name, or else its id.
pub open spec fn display_name(node: PhaneronNode, node_id: Seq<char>) -> Seq<char> {
    match node.name {
        Some(name) => name@,
        None => node_id,
    }
}

/// Among the first `count` nodes in visiting order, the last one that lists
/// `output` among its video outputs.
pub open spec fn last_lister(state: PhaneronState, count: int, output: Seq<char>) -> Option<Seq<char>>
    decreases count,
{
    if count <= 0 {
        None
    } else {
        let node_id = state.nodes.keys()[count - 1];
        if lists_output(state, node_id, output) {
            Some(node_id)
        } else {
            last_lister(state, count - 1, output)
        }
    }
}

/// The node that `output` is attributed to: of the nodes that list it, the
/// one visited last.
pub open spec fn output_owner(state: PhaneronState, output: Seq<char>) -> Option<Seq<char>> {
    last_lister(state, state.nodes.keys().len() as int, output)
}

/// What `last_lister` finds lists the output; where it finds nothing, none of
/// the nodes it looked at lists it.
pub proof fn lemma_last_lister(state: PhaneronState, count: int, output: Seq<char>)
    requires
        0 <= count <= state.nodes.keys().len(),
    ensures
        match last_lister(state, count, output) {
            Some(node_id) => lists_output(state, node_id, output),
            None => forall|j: int|
                0 <= j < count ==> !#[trigger] lists_output(state, state.nodes.keys()[j], output),
        },
    decreases count,
{
    if count > 0 {
        lemma_last_lister(state, count - 1, output);
    }
}

/// An output has an owner exactly when some node lists it, and the owner is
/// such a node.
pub proof fn lemma_output_owner(state: PhaneronState, output: Seq<char>)
    ensures
        output_owner(state, output) is Some <==> output_has_owner(state, output),
        output_owner(state, output) matches Some(node_id) ==> lists_output(state, node_id, output),
{
    lemma_last_lister(state, state.nodes.keys().len() as int, output);
    state.nodes.lemma_keys_are_bound();
    if output_has_owner(state, output) {
        let node_id = choose|node_id: Seq<char>| #[trigger] lists_output(state, node_id, output);
        assert(state.nodes.keys().contains(node_id));
        let j = choose|j: int| 0 <= j < state.nodes.keys().len() && state.nodes.keys()[j] == node_id;
        assert(lists_output(state, state.nodes.keys()[j], output));
    }
}

/// The name a switcher input is shown by: the display name of the owner of
/// the output connected to it.
pub open spec fn source_name(state: PhaneronState, input: Seq<char>) -> Seq<char> {
    let owner = output_owner(state, state.connections@[input]@)->0;
    display_name(state.nodes@[owner], owner)
}

/// The graph can be turned into a snapshot: the switcher node has a list of
/// inputs, and the output connected to each of them belongs to some node.
pub open spec fn snapshot_resolvable(state: PhaneronState) -> bool {
    &&& state.video_inputs@.contains_key(switcher_id())
    &&& forall|input: Seq<char>|
        #![trigger switcher_inputs(state).contains(input), state.connections@.contains_key(input)]
        switcher_inputs(state).contains(input) && state.connections@.contains_key(input)
            ==> output_has_owner(state, state.connections@[input]@)
}

/// The panel's transition for the switcher's.
pub open spec fn panel_transition(t: Option<TraditionalMixerEmulatorTransition>) -> Option<
    Transition,
> {
    match t {
        Some(t) => Some(Transition::from_spec(t)),
        None => None,
    }
}

/// `snapshot` is what the panel shows for the graph `state` when the
/// switcher's own state is `switcher`: program, preview and transition come
/// from the switcher; the video sources are the switcher's connected inputs,
/// in order, each named after the owner of the output feeding it.
pub open spec fn is_snapshot_of(
    state: PhaneronState,
    switcher: TraditionalMixerEmulatorState,
    snapshot: Snapshot,
) -> bool {
    &&& snapshot.active_video_source_id == switcher.active_input
    &&& snapshot.next_video_source_id == switcher.next_input
    &&& snapshot.transition == panel_transition(switcher.transition)
    &&& snapshot.video_sources@.map_values(|v: VideoSource| v.id@) == connected_inputs(
        switcher_inputs(state),
        state.connections@,
    )
    &&& forall|i: int|
        0 <= i < snapshot.video_sources@.len() ==> snapshot.video_sources@[i].name@ == source_name(
            state,
            #[trigger] snapshot.video_sources@[i].id@,
        )
}

/// The video sources the panel shows depend on the graph alone, not on the
/// switcher's own state: two snapshots of one graph list the same inputs
/// under the same names, in the same order.
pub proof fn lemma_sources_follow_graph(
    state: PhaneronState,
    first_switcher: TraditionalMixerEmulatorState,
    second_switcher: TraditionalMixerEmulatorState,
    first: Snapshot,
    second: Snapshot,
)
    requires
        is_snapshot_of(state, first_switcher, first),
        is_snapshot_of(state, second_switcher, second),
    ensures
        first.video_sources@.map_values(|v: VideoSource| (v.id@, v.name@))
            == second.video_sources@.map_values(|v: VideoSource| (v.id@, v.name@)),
{
    let first_ids = first.video_sources@.map_values(|v: VideoSource| v.id@);
    let second_ids = second.video_sources@.map_values(|v: VideoSource| v.id@);
    assert(first_ids.len() == second_ids.len());
    assert forall|i: int| 0 <= i < first.video_sources@.len() implies (first.video_sources@[i].id@,
        first.video_sources@[i].name@) == (second.video_sources@[i].id@,
        second.video_sources@[i].name@) by {
        assert(first_ids[i] == second_ids[i]);
    }
    assert(first.video_sources@.map_values(|v: VideoSource| (v.id@, v.name@))
        =~= second.video_sources@.map_values(|v: VideoSource| (v.id@, v.name@)));
}

/// Where a single node lists the output that feeds a source, the source is
/// shown by that node's name (or, without one, its id).
pub proof fn lemma_single_lister_names_source(
    state: PhaneronState,
    switcher: TraditionalMixerEmulatorState,
    snapshot: Snapshot,
    i: int,
    node_id: Seq<char>,
)
    requires
        is_snapshot_of(state, switcher, snapshot),
        0 <= i < snapshot.video_sources@.len(),
        forall|other: Seq<char>|
            #[trigger] lists_output(
                state,
                other,
                state.connections@[snapshot.video_sources@[i].id@]@,
            ) <==> other == node_id,
    ensures
        snapshot.video_sources@[i].name@ == display_name(state.nodes@[node_id], node_id),
{
    let output = state.connections@[snapshot.video_sources@[i].id@]@;
    assert(lists_output(state, node_id, output));
    lemma_output_owner(state, output);
}

/// A copy of an optional string.
pub fn clone_optional(s: &Option<String>) -> (r: Option<String>)
    ensures
        r == *s,
{
    match s {
        Some(s) => Some(s.clone()),
        None => None,
    }
}

/// The state of the switcher node, as JSON text, if it has one.
pub fn switcher_state_text(state: &PhaneronState) -> (r: Option<String>)
    requires
        state.nodes@.contains_key(switcher_id()),
    ensures
        r == state.nodes@[switcher_id()].state,
{
    let switcher = switcher_node_id();
    let node = state.nodes.get(&switcher).unwrap();
    clone_optional(&node.state)
}

/// Maps each video output of the graph to its owner (see `output_owner`):
/// walks the nodes in visiting order and binds each of a node's outputs to
/// it, so that where several nodes list an output, the one visited last wins.
pub fn output_owners(state: &PhaneronState) -> (owners: StringMap<String>)
    ensures
        forall|output: Seq<char>| #[trigger]
            owners@.contains_key(output) <==> output_owner(*state, output) is Some,
        forall|output: Seq<char>| #[trigger]
            owners@.contains_key(output) ==> output_owner(*state, output) == Some(owners@[output]@),
{
    let n = state.nodes.len();
    let ghost keys = state.nodes.keys();
    let mut owners: StringMap<String> = StringMap::new();
    let mut i: usize = 0;
    while i < n
        invariant
            n == keys.len(),
            keys == state.nodes.keys(),
            i <= n,
            forall|output: Seq<char>| #[trigger]
                owners@.contains_key(output) <==> last_lister(*state, i as int, output) is Some,
            forall|output: Seq<char>| #[trigger]
                owners@.contains_key(output) ==> last_lister(*state, i as int, output) == Some(
                    owners@[output]@,
                ),
        decreases n - i,
    {
        let (node_id, _node) = state.nodes.entry_at(i);
        match state.video_outputs.get(node_id) {
            Some(outputs) => {
                let m = outputs.len();
                let mut k: usize = 0;
                while k < m
                    invariant
                        m == outputs@.len(),
                        k <= m,
                        i < n,
                        n == keys.len(),
                        keys == state.nodes.keys(),
                        node_id@ == keys[i as int],
                        *outputs == state.video_outputs@[node_id@],
                        forall|output: Seq<char>| #[trigger]
                            owners@.contains_key(output) <==> (last_lister(
                                *state,
                                i as int,
                                output,
                            ) is Some || exists|l: int| 0 <= l < k && outputs@[l]@ == output),
                        forall|output: Seq<char>| #[trigger]
                            owners@.contains_key(output) ==> owners@[output]@ == (if exists|l: int|
                                0 <= l < k && outputs@[l]@ == output {
                                node_id@
                            } else {
                                last_lister(*state, i as int, output)->0
                            }),
                    decreases m - k,
                {
                    let output = outputs[k].clone();
                    owners.insert(output, node_id.clone());
                    k = k + 1;
                }
                proof {
                    assert forall|output: Seq<char>|
                        lists_output(*state, node_id@, output) <==> exists|l: int|
                            0 <= l < m && outputs@[l]@ == output by {
                        if lists_output(*state, node_id@, output) {
                            let l = choose|l: int|
                                0 <= l < string_views(outputs@).len() && string_views(outputs@)[l]
                                    == output;
                            assert(outputs@[l]@ == output);
                        }
                        if exists|l: int| 0 <= l < m && outputs@[l]@ == output {
                            let l = choose|l: int| 0 <= l < m && outputs@[l]@ == output;
                            assert(string_views(outputs@)[l] == output);
                        }
                    }
                }
            },
            None => {},
        }
        i = i + 1;
    }
    owners
}

/// Whether the graph can be turned into a snapshot (see `snapshot_resolvable`).
pub fn is_snapshot_resolvable(state: &PhaneronState) -> (r: bool)
    ensures
        r == snapshot_resolvable(*state),
{
    let switcher_key = switcher_node_id();
    let inputs = match state.video_inputs.get(&switcher_key) {
        Some(inputs) => inputs,
        None => {
            return false;
        },
    };
    let ghost views = string_views(inputs@);
    let owners = output_owners(state);
    proof {
        assert forall|output: Seq<char>| #[trigger]
            owners@.contains_key(output) <==> output_has_owner(*state, output) by {
            lemma_output_owner(*state, output);
        }
    }
    let m = inputs.len();
    let mut k: usize = 0;
    while k < m
        invariant
            m == inputs@.len(),
            k <= m,
            views == string_views(inputs@),
            state.video_inputs@.contains_key(switcher_id()),
            *inputs == state.video_inputs@[switcher_id()],
            forall|output: Seq<char>| #[trigger]
                owners@.contains_key(output) <==> output_has_owner(*state, output),
            forall|x: int|
                0 <= x < k && #[trigger] state.connections@.contains_key(views[x])
                    ==> output_has_owner(*state, state.connections@[views[x]]@),
        decreases m - k,
    {
        let input = &inputs[k];
        proof {
            assert(views[k as int] == input@);
        }
        match state.connections.get(input) {
            Some(output) => {
                if !owners.contains_key(output) {
                    proof {
                        assert(switcher_inputs(*state).contains(input@));
                    }
                    return false;
                }
            },
            None => {},
        }
        k = k + 1;
    }
    proof {
        assert forall|input: Seq<char>|
            switcher_inputs(*state).contains(input) && state.connections@.contains_key(input)
                implies output_has_owner(*state, state.connections@[input]@) by {
            let x = choose|x: int| 0 <= x < views.len() && views[x] == input;
            assert(state.connections@.contains_key(views[x]));
        }
    }
    true
}

/// The snapshot that the panel shows for the graph `state` once the
/// switcher's own state, `switcher`, is known.
pub fn snapshot_from_state(state: &PhaneronState, switcher: TraditionalMixerEmulatorState) -> (snapshot:
    Snapshot)
    requires
        snapshot_resolvable(*state),
    ensures
        is_snapshot_of(*state, switcher, snapshot),
{
    let owners = output_owners(state);
    proof {
        assert forall|output: Seq<char>| #[trigger]
            owners@.contains_key(output) <==> output_has_owner(*state, output) by {
            lemma_output_owner(*state, output);
        }
        assert forall|output: Seq<char>| #[trigger]
            owners@.contains_key(output) implies lists_output(*state, owners@[output]@, output) by {
            lemma_output_owner(*state, output);
        }
    }
    let switcher_key = switcher_node_id();
    let inputs = state.video_inputs.get(&switcher_key).unwrap();
    let ghost views = string_views(inputs@);
    let mut video_sources: Vec<VideoSource> = Vec::new();
    let m = inputs.len();
    let mut k: usize = 0;
    while k < m
        invariant
            m == inputs@.len(),
            k <= m,
            views == string_views(inputs@),
            views == switcher_inputs(*state),
            snapshot_resolvable(*state),
            forall|output: Seq<char>| #[trigger]
                owners@.contains_key(output) <==> output_has_owner(*state, output),
            forall|output: Seq<char>| #[trigger]
                owners@.contains_key(output) ==> output_owner(*state, output) == Some(
                    owners@[output]@,
                ),
            forall|output: Seq<char>| #[trigger]
                owners@.contains_key(output) ==> lists_output(*state, owners@[output]@, output),
            video_sources@.map_values(|v: VideoSource| v.id@) == connected_inputs(
                views.take(k as int),
                state.connections@,
            ),
            forall|x: int|
                0 <= x < video_sources@.len() ==> video_sources@[x].name@ == source_name(
                    *state,
                    #[trigger] video_sources@[x].id@,
                ),
        decreases m - k,
    {
        let input = &inputs[k];
        proof {
            assert(views[k as int] == input@);
            assert(views.take(k + 1).drop_last() =~= views.take(k as int));
            assert(views.take(k + 1).last() == input@);
        }
        match state.connections.get(input) {
            Some(output) => {
                proof {
                    assert(switcher_inputs(*state).contains(input@));
                }
                let node_id = owners.get(output).unwrap();
                let node = state.nodes.get(node_id).unwrap();
                let name = match &node.name {
                    Some(name) => name.clone(),
                    None => node_id.clone(),
                };
                let source = VideoSource { id: input.clone(), name };
                let ghost before = video_sources@;
                video_sources.push(source);
                proof {
                    assert(source.name@ == source_name(*state, source.id@));
                    assert(video_sources@.map_values(|v: VideoSource| v.id@) =~= before.map_values(
                        |v: VideoSource| v.id@,
                    ).push(input@));
                }
            },
            None => {},
        }
        k = k + 1;
    }
    proof {
        assert(views.take(m as int) =~= views);
    }
    let transition = match switcher.transition {
        Some(t) => Some(Transition::from(t)),
        None => None,
    };
    Snapshot {
        active_video_source_id: switcher.active_input,
        next_video_source_id: switcher.next_input,
        video_sources,
        transition,
    }
}

/// An input is kept among the connected inputs exactly when a connection
/// feeds it: `connected_inputs` is the inputs filtered by the connections,
/// keeping their order.
pub proof fn lemma_connected_inputs_are_filter(
    inputs: Seq<Seq<char>>,
    connections: Map<Seq<char>, String>,
)
    ensures
        connected_inputs(inputs, connections) == inputs.filter(
            |input: Seq<char>| connections.contains_key(input),
        ),
        forall|x: Seq<char>| #[trigger]
            connected_inputs(inputs, connections).contains(x) <==> inputs.contains(x)
                && connections.contains_key(x),
    decreases inputs.len(),
{
    reveal(Seq::filter);
    if inputs.len() > 0 {
        let rest = inputs.drop_last();
        lemma_connected_inputs_are_filter(rest, connections);
        assert(inputs =~= rest.push(inputs.last()));
        let kept = connected_inputs(inputs, connections);
        let kept_rest = connected_inputs(rest, connections);
        assert forall|x: Seq<char>| #[trigger]
            kept.contains(x) <==> inputs.contains(x) && connections.contains_key(x) by {
            if kept.contains(x) {
                let i = choose|i: int| 0 <= i < kept.len() && kept[i] == x;
                if i < kept_rest.len() {
                    assert(kept_rest[i] == x);
                    assert(kept_rest.contains(x));
                    let j = choose|j: int| 0 <= j < rest.len() && rest[j] == x;
                    assert(inputs[j] == x);
                } else {
                    assert(inputs[inputs.len() - 1] == x);
                }
            }
            if inputs.contains(x) && connections.contains_key(x) {
                let j = choose|j: int| 0 <= j < inputs.len() && inputs[j] == x;
                if j < rest.len() {
                    assert(rest[j] == x);
                    assert(kept_rest.contains(x));
                    let i = choose|i: int| 0 <= i < kept_rest.len() && kept_rest[i] == x;
                    assert(kept[i] == x);
                } else {
                    assert(kept[kept.len() - 1] == x);
                }
            }
        }
    }
}

/// The video sources of a snapshot are the switcher's inputs that a
/// connection feeds, every one of them, in input order: their ids are the
/// switcher's input list filtered by the connections, and an id occurs among
/// the sources exactly when it is a switcher input with a connection.
pub proof fn lemma_sources_are_connected_switcher_inputs(
    state: PhaneronState,
    switcher: TraditionalMixerEmulatorState,
    snapshot: Snapshot,
)
    requires
        is_snapshot_of(state, switcher, snapshot),
    ensures
        snapshot.video_sources@.map_values(|v: VideoSource| v.id@) == state.video_inputs@[switcher_id()]@.map_values(
            |s: String| s@,
        ).filter(|input: Seq<char>| state.connections@.contains_key(input)),
        forall|x: Seq<char>|
            (exists|k: int| 0 <= k < snapshot.video_sources@.len() && #[trigger] snapshot.video_sources@[k].id@ == x)
                <==> (state.connections@.contains_key(x) && exists|j: int|
                0 <= j < state.video_inputs@[switcher_id()]@.len()
                    && #[trigger] state.video_inputs@[switcher_id()]@[j]@ == x),
{
    let inputs = state.video_inputs@[switcher_id()]@;
    let views = inputs.map_values(|s: String| s@);
    let ids = snapshot.video_sources@.map_values(|v: VideoSource| v.id@);
    lemma_connected_inputs_are_filter(views, state.connections@);
    assert forall|x: Seq<char>|
        (exists|k: int| 0 <= k < snapshot.video_sources@.len() && #[trigger] snapshot.video_sources@[k].id@ == x)
            <==> (state.connections@.contains_key(x) && exists|j: int|
            0 <= j < inputs.len() && #[trigger] inputs[j]@ == x) by {
        if exists|k: int| 0 <= k < snapshot.video_sources@.len() && #[trigger] snapshot.video_sources@[k].id@ == x {
            let k = choose|k: int| 0 <= k < snapshot.video_sources@.len() && #[trigger] snapshot.video_sources@[k].id@ == x;
            assert(ids[k] == x);
            assert(ids.contains(x));
            let j = choose|j: int| 0 <= j < views.len() && views[j] == x;
            assert(inputs[j]@ == x);
        }
        if state.connections@.contains_key(x) && exists|j: int| 0 <= j < inputs.len() && #[trigger] inputs[j]@ == x {
            let j = choose|j: int| 0 <= j < inputs.len() && #[trigger] inputs[j]@ == x;
            assert(views[j] == x);
            assert(views.contains(x));
            assert(ids.contains(x));
            let k = choose|k: int| 0 <= k < ids.len() && ids[k] == x;
            assert(snapshot.video_sources@[k].id@ == x);
        }
    }
}

/// A node lists an output exactly when it is a node of the graph, it has a
/// list of video outputs, and the output occurs anywhere in that list.
pub proof fn lemma_lists_output_means_listed(
    state: PhaneronState,
    node_id: Seq<char>,
    output: Seq<char>,
)
    ensures
        lists_output(state, node_id, output) <==> (state.nodes@.contains_key(node_id)
            && state.video_outputs@.contains_key(node_id) && exists|l: int|
            0 <= l < state.video_outputs@[node_id]@.len()
                && #[trigger] state.video_outputs@[node_id]@[l]@ == output),
{
    let outputs = state.video_outputs@[node_id]@;
    if string_views(outputs).contains(output) {
        let l = choose|l: int| 0 <= l < string_views(outputs).len() && string_views(outputs)[l] == output;
        assert(outputs[l]@ == output);
    }
    if exists|l: int| 0 <= l < outputs.len() && #[trigger] outputs[l]@ == output {
        let l = choose|l: int| 0 <= l < outputs.len() && #[trigger] outputs[l]@ == output;
        assert(string_views(outputs)[l] == output);
    }
}

/// Every video output that a node of the graph lists, wherever it stands in
/// that node's list, has an owner.
pub proof fn lemma_every_listed_output_has_owner(state: PhaneronState, node_id: Seq<char>, l: int)
    requires
        state.nodes@.contains_key(node_id),
        state.video_outputs@.contains_key(node_id),
        0 <= l < state.video_outputs@[node_id]@.len(),
    ensures
        output_owner(state, state.video_outputs@[node_id]@[l]@) is Some,
{
    let output = state.video_outputs@[node_id]@[l]@;
    lemma_lists_output_means_listed(state, node_id, output);
    lemma_output_owner(state, output);
}

/// Among the first `count` nodes in visiting order, what `last_lister` finds
/// is one of them, lists the output, and no later one of them lists it.
proof fn lemma_last_lister_is_last(state: PhaneronState, count: int, output: Seq<char>)
    requires
        0 <= count <= state.nodes.keys().len(),
        last_lister(state, count, output) is Some,
    ensures
        exists|i: int|
            0 <= i < count && state.nodes.keys()[i] == last_lister(state, count, output)->0
                && forall|j: int|
                i < j < count ==> !#[trigger] lists_output(state, state.nodes.keys()[j], output),
    decreases count,
{
    if !lists_output(state, state.nodes.keys()[count - 1], output) {
        lemma_last_lister_is_last(state, count - 1, output);
        let i = choose|i: int|
            0 <= i < count - 1 && state.nodes.keys()[i] == last_lister(state, count - 1, output)->0
                && forall|j: int|
                i < j < count - 1 ==> !#[trigger] lists_output(state, state.nodes.keys()[j], output);
        assert(forall|j: int| i < j < count ==> !#[trigger] lists_output(state, state.nodes.keys()[j], output));
    } else {
        assert(forall|j: int| count - 1 < j < count ==> !#[trigger] lists_output(state, state.nodes.keys()[j], output));
    }
}

/// The owner of an output is a node of the graph whose video output list
/// holds the output, and no node visited after it lists the output.
pub proof fn lemma_owner_is_last_node_listing(state: PhaneronState, output: Seq<char>)
    requires
        output_owner(state, output) is Some,
    ensures
        state.nodes@.contains_key(output_owner(state, output)->0),
        state.video_outputs@.contains_key(output_owner(state, output)->0),
        exists|l: int|
            0 <= l < state.video_outputs@[output_owner(state, output)->0]@.len()
                && #[trigger] state.video_outputs@[output_owner(state, output)->0]@[l]@ == output,
        exists|i: int|
            0 <= i < state.nodes.keys().len() && state.nodes.keys()[i] == output_owner(state, output)->0
                && forall|j: int|
                i < j < state.nodes.keys().len() ==> !(#[trigger] state.video_outputs@.contains_key(
                    state.nodes.keys()[j],
                ) && exists|l: int|
                    0 <= l < state.video_outputs@[state.nodes.keys()[j]]@.len()
                        && #[trigger] state.video_outputs@[state.nodes.keys()[j]]@[l]@ == output),
{
    let n = output_owner(state, output)->0;
    lemma_output_owner(state, output);
    lemma_lists_output_means_listed(state, n, output);
    lemma_last_lister_is_last(state, state.nodes.keys().len() as int, output);
    state.nodes.lemma_keys_are_bound();
    let i = choose|i: int|
        0 <= i < state.nodes.keys().len() && state.nodes.keys()[i] == n && forall|j: int|
            i < j < state.nodes.keys().len() ==> !#[trigger] lists_output(state, state.nodes.keys()[j], output);
    assert forall|j: int| i < j < state.nodes.keys().len() implies !(#[trigger] state.video_outputs@.contains_key(
        state.nodes.keys()[j],
    ) && exists|l: int|
        0 <= l < state.video_outputs@[state.nodes.keys()[j]]@.len()
            && #[trigger] state.video_outputs@[state.nodes.keys()[j]]@[l]@ == output) by {
        let k = state.nodes.keys()[j];
        assert(state.nodes.keys().contains(k));
        lemma_lists_output_means_listed(state, k, output);
        assert(!lists_output(state, state.nodes.keys()[j], output));
    }
}

/// A graph can be turned into a snapshot exactly when the switcher has a list
/// of inputs and, for each of them that a connection feeds, the connected
/// output occurs in the video output list of some node of the graph.  Nothing
/// else is asked of the graph: not of unconnected inputs, nor of the inputs
/// of the feeding nodes.
pub proof fn lemma_resolvable_iff_connected_inputs_fed(state: PhaneronState)
    ensures
        snapshot_resolvable(state) <==> (state.video_inputs@.contains_key(switcher_id()) && forall|j: int|
            0 <= j < state.video_inputs@[switcher_id()]@.len() && state.connections@.contains_key(
                #[trigger] state.video_inputs@[switcher_id()]@[j]@,
            ) ==> exists|n: Seq<char>, l: int|
                state.nodes@.contains_key(n) && state.video_outputs@.contains_key(n) && 0 <= l
                    < state.video_outputs@[n]@.len() && #[trigger] state.video_outputs@[n]@[l]@
                    == state.connections@[state.video_inputs@[switcher_id()]@[j]@]@),
{
    let inputs = state.video_inputs@[switcher_id()]@;
    let fed = |x: Seq<char>|
        exists|n: Seq<char>, l: int|
            state.nodes@.contains_key(n) && state.video_outputs@.contains_key(n) && 0 <= l
                < state.video_outputs@[n]@.len() && #[trigger] state.video_outputs@[n]@[l]@
                == state.connections@[x]@;
    assert forall|x: Seq<char>| output_has_owner(state, state.connections@[x]@) <==> #[trigger] fed(x) by {
        let o = state.connections@[x]@;
        if output_has_owner(state, o) {
            let n = choose|n: Seq<char>| #[trigger] lists_output(state, n, o);
            lemma_lists_output_means_listed(state, n, o);
            let l = choose|l: int|
                0 <= l < state.video_outputs@[n]@.len() && #[trigger] state.video_outputs@[n]@[l]@ == o;
            assert(state.video_outputs@[n]@[l]@ == o);
        }
        if fed(x) {
            let (n, l) = choose|n: Seq<char>, l: int|
                state.nodes@.contains_key(n) && state.video_outputs@.contains_key(n) && 0 <= l
                    < state.video_outputs@[n]@.len() && #[trigger] state.video_outputs@[n]@[l]@ == o;
            lemma_lists_output_means_listed(state, n, o);
            assert(lists_output(state, n, o));
        }
    }
    if state.video_inputs@.contains_key(switcher_id()) {
        if snapshot_resolvable(state) {
            assert forall|j: int|
                0 <= j < inputs.len() && state.connections@.contains_key(#[trigger] inputs[j]@)
                    implies fed(inputs[j]@) by {
                assert(switcher_inputs(state)[j] == inputs[j]@);
                assert(switcher_inputs(state).contains(inputs[j]@));
            }
        }
        if forall|j: int| 0 <= j < inputs.len() && state.connections@.contains_key(#[trigger] inputs[j]@)
            ==> fed(inputs[j]@) {
            assert forall|input: Seq<char>|
                switcher_inputs(state).contains(input) && state.connections@.contains_key(input)
                    implies output_has_owner(state, state.connections@[input]@) by {
                let j = choose|j: int| 0 <= j < switcher_inputs(state).len() && switcher_inputs(state)[j] == input;
                assert(inputs[j]@ == input);
                assert(fed(input));
            }
        }
    }
}

/// The display name of a node is its own name when it has one, whatever else
/// the node holds, and its id otherwise.
pub proof fn lemma_display_name_prefers_name(node: PhaneronNode, node_id: Seq<char>)
    ensures
        node.name matches Some(name) ==> display_name(node, node_id) == name@,
        node.name is None ==> display_name(node, node_id) == node_id,
{
}

/// In a snapshot of a resolvable graph, each source is shown by the name of
/// the node that owns the output feeding it, whatever else that node holds,
/// or by that node's id when it has no name.
pub proof fn lemma_source_named_after_feeding_node(
    state: PhaneronState,
    switcher: TraditionalMixerEmulatorState,
    snapshot: Snapshot,
    i: int,
)
    requires
        snapshot_resolvable(state),
        is_snapshot_of(state, switcher, snapshot),
        0 <= i < snapshot.video_sources@.len(),
    ensures
        output_owner(state, state.connections@[snapshot.video_sources@[i].id@]@) is Some,
        ({
            let owner = output_owner(state, state.connections@[snapshot.video_sources@[i].id@]@)->0;
            &&& state.nodes@[owner].name matches Some(name) ==> snapshot.video_sources@[i].name@ == name@
            &&& state.nodes@[owner].name is None ==> snapshot.video_sources@[i].name@ == owner
        }),
{
    let id = snapshot.video_sources@[i].id@;
    let ids = snapshot.video_sources@.map_values(|v: VideoSource| v.id@);
    lemma_connected_inputs_are_filter(switcher_inputs(state), state.connections@);
    assert(ids[i] == id);
    assert(ids.contains(id));
    assert(switcher_inputs(state).contains(id));
    lemma_output_owner(state, state.connections@[id]@);
}

} // verus!
