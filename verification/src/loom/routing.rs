use vstd::prelude::*;
use crate::text::{
    chars_between, chars_of, find_chars, find_from, first_non_whitespace, parse_unsigned,
    parse_unsigned_decimal, skip_whitespace, str_eq, string_from_chars,
};
use vstd::string::StringExecFns;

verus! {

// ---------------------------------------------------------------------------
// Graph objects
// ---------------------------------------------------------------------------

/// The audio channel a port carries.
#[derive(Clone, Copy, Debug, PartialEq, Eq, Structural)]
pub enum Channel {
    Left,
    Right,
    Mono,
}

/// Whether a port receives or sends audio.
#[derive(Clone, Copy, Debug, PartialEq, Eq, Structural)]
pub enum PortDirection {
    Input,
    Output,
}

/// A node of the PipeWire graph: an application stream, a device, or the
/// filter itself.
#[derive(Clone, Debug)]
pub struct Node {
    pub id: u32,
    pub name: String,
    pub media_class: String,
    pub priority: u32,
}

/// The abstract content of a node.
pub struct NodeView {
    pub id: u32,
    pub name: Seq<char>,
    pub media_class: Seq<char>,
    pub priority: u32,
}

impl View for Node {
    type V = NodeView;

    open spec fn view(&self) -> NodeView {
        NodeView {
            id: self.id,
            name: self.name@,
            media_class: self.media_class@,
            priority: self.priority,
        }
    }
}

/// A port of a node.
#[derive(Clone, Copy, Debug, PartialEq, Eq, Structural)]
pub struct Port {
    pub id: u32,
    pub node_id: u32,
    pub direction: PortDirection,
    pub channel: Channel,
}

/// A link between two ports that exists in the graph.
#[derive(Clone, Copy, Debug, PartialEq, Eq, Structural)]
pub struct ExistingLink {
    pub id: u32,
    pub output_node: u32,
    pub output_port: u32,
    pub input_node: u32,
    pub input_port: u32,
}

/// The name of the filter node that Loom publishes.
pub open spec fn filter_node_name() -> Seq<char> {
    "loom_virtual_sink"@
}

/// The media class of an audio output device.
pub open spec fn audio_sink_class() -> Seq<char> {
    "Audio/Sink"@
}

/// The media class of an application's playback stream.
pub open spec fn player_class() -> Seq<char> {
    "Stream/Output/Audio"@
}

/// The channel a channel name stands for.
pub open spec fn channel_of_name(name: Seq<char>) -> Option<Channel> {
    if name == "FL"@ {
        Some(Channel::Left)
    } else if name == "FR"@ {
        Some(Channel::Right)
    } else if name == "MONO"@ {
        Some(Channel::Mono)
    } else {
        None
    }
}

impl Channel {
    /// Reads a PipeWire channel name: `FL`, `FR` or `MONO`.
    pub fn parse(value: &str) -> (channel: Option<Channel>)
        ensures
            channel == channel_of_name(value@),
    {
        if str_eq(value, "FL") {
            Some(Channel::Left)
        } else if str_eq(value, "FR") {
            Some(Channel::Right)
        } else if str_eq(value, "MONO") {
            Some(Channel::Mono)
        } else {
            None
        }
    }
}

impl Node {
    /// Whether the node is an application playing audio.
    pub fn is_player(&self) -> (player: bool)
        ensures
            player == (self@.media_class == player_class()),
    {
        str_eq(self.media_class.as_str(), "Stream/Output/Audio")
    }

    /// Whether the node is the Loom filter.
    pub fn is_filter(&self) -> (filter: bool)
        ensures
            filter == (self@.name == filter_node_name()),
    {
        str_eq(self.name.as_str(), "loom_virtual_sink")
    }

    /// Whether the node is an audio output device.
    pub fn is_audio_sink(&self) -> (sink: bool)
        ensures
            sink == (self@.media_class == audio_sink_class()),
    {
        str_eq(self.media_class.as_str(), "Audio/Sink")
    }
}

// ---------------------------------------------------------------------------
// The default-sink metadata value
// ---------------------------------------------------------------------------

/// The key that names a sink in a metadata value: `"name"`, quotes included.
pub open spec fn name_key() -> Seq<char> {
    seq!['"', 'n', 'a', 'm', 'e', '"']
}

/// The sink name that a metadata value such as `{"name":"alsa_output"}`
/// carries: after the first `"name"`, the first `:`, then optional
/// whitespace, a double quote, and the text up to the next double quote.
pub open spec fn default_sink_name_spec(value: Seq<char>) -> Option<Seq<char>> {
    match find_from(value, name_key(), 0) {
        None => None,
        Some(key) => match find_from(value, seq![':'], key + 6) {
            None => None,
            Some(colon) => {
                let open = first_non_whitespace(value, colon + 1);
                if open < value.len() && value[open] == '"' {
                    match find_from(value, seq!['"'], open + 1) {
                        None => None,
                        Some(close) => Some(value.subrange(open + 1, close)),
                    }
                } else {
                    None
                }
            },
        },
    }
}

proof fn lemma_find_from_in_bounds(s: Seq<char>, pattern: Seq<char>, from: int)
    ensures
        find_from(s, pattern, from) matches Some(i) ==> from <= i && i + pattern.len() <= s.len(),
    decreases s.len() + 1 - from,
{
    if from < 0 || from + pattern.len() > s.len() {
    } else if s.subrange(from, from + pattern.len()) == pattern {
    } else {
        lemma_find_from_in_bounds(s, pattern, from + 1);
    }
}

/// Reads the sink name out of a default-sink metadata value.
pub fn default_sink_name(value: &str) -> (name: Option<String>)
    ensures
        match default_sink_name_spec(value@) {
            Some(n) => name matches Some(s) && s@ == n,
            None => name is None,
        },
{
    let chars = chars_of(value);
    let key = vec!['"', 'n', 'a', 'm', 'e', '"'];
    let colon_pattern = vec![':'];
    let quote_pattern = vec!['"'];
    assert(key@ =~= name_key());
    assert(colon_pattern@ =~= seq![':']);
    assert(quote_pattern@ =~= seq!['"']);
    proof {
        lemma_find_from_in_bounds(chars@, name_key(), 0);
    }
    let key_at = match find_chars(&chars, &key, 0) {
        Some(i) => i,
        None => return None,
    };
    assert(find_from(value@, name_key(), 0) == Some(key_at as int));
    assert(key_at + 6 <= chars@.len());
    assert(chars@.len() == chars.len());
    proof {
        lemma_find_from_in_bounds(chars@, seq![':'], key_at + 6);
    }
    let colon_at = match find_chars(&chars, &colon_pattern, key_at + 6) {
        Some(i) => i,
        None => return None,
    };
    assert(colon_at + 1 <= chars@.len());
    let open = skip_whitespace(&chars, colon_at + 1);
    if open >= chars.len() || chars[open] != '"' {
        return None;
    }
    proof {
        lemma_find_from_in_bounds(chars@, seq!['"'], open + 1);
    }
    let close = match find_chars(&chars, &quote_pattern, open + 1) {
        Some(i) => i,
        None => return None,
    };
    let inner = chars_between(&chars, open + 1, close);
    Some(string_from_chars(&inner))
}

// ---------------------------------------------------------------------------
// Lookups over the graph
// ---------------------------------------------------------------------------

/// Whether a node is the Loom filter.
pub open spec fn is_filter_node(n: NodeView) -> bool {
    n.name == filter_node_name()
}

/// Whether a node is the audio output device called `name`.
pub open spec fn is_sink_named(n: NodeView, name: Seq<char>) -> bool {
    n.name == name && n.media_class == audio_sink_class()
}

/// The filter node, if the graph has one (the first announced, should
/// there be several).
pub open spec fn filter_node(nodes: Seq<NodeView>) -> Option<NodeView>
    decreases nodes.len(),
{
    if nodes.len() == 0 {
        None
    } else if is_filter_node(nodes[0]) {
        Some(nodes[0])
    } else {
        filter_node(nodes.drop_first())
    }
}

/// The audio output device called `name`, if the graph has one (the first
/// announced, should there be several).
pub open spec fn sink_named(nodes: Seq<NodeView>, name: Seq<char>) -> Option<NodeView>
    decreases nodes.len(),
{
    if nodes.len() == 0 {
        None
    } else if is_sink_named(nodes[0], name) {
        Some(nodes[0])
    } else {
        sink_named(nodes.drop_first(), name)
    }
}

/// The audio output device to fall back to: among the devices other than
/// the filter, the one of highest session priority (the last announced of
/// equals).
pub open spec fn fallback_sink(nodes: Seq<NodeView>) -> Option<NodeView>
    decreases nodes.len(),
{
    if nodes.len() == 0 {
        None
    } else {
        let best = fallback_sink(nodes.drop_last());
        let n = nodes.last();
        if !is_filter_node(n) && n.media_class == audio_sink_class() && (best is None
            || best.unwrap().priority <= n.priority) {
            Some(n)
        } else {
            best
        }
    }
}

/// The ids of the nodes that are playing applications, in announcement
/// order.
pub open spec fn player_ids(nodes: Seq<NodeView>) -> Seq<u32>
    decreases nodes.len(),
{
    if nodes.len() == 0 {
        Seq::empty()
    } else {
        let rest = player_ids(nodes.drop_last());
        if nodes.last().media_class == player_class() {
            rest.push(nodes.last().id)
        } else {
            rest
        }
    }
}

/// The first port of `node` with the given direction and channel.
pub open spec fn find_port_spec(
    ports: Seq<Port>,
    node: u32,
    direction: PortDirection,
    channel: Channel,
) -> Option<Port>
    decreases ports.len(),
{
    if ports.len() == 0 {
        None
    } else if ports[0].node_id == node && ports[0].direction == direction && ports[0].channel
        == channel {
        Some(ports[0])
    } else {
        find_port_spec(ports.drop_first(), node, direction, channel)
    }
}

/// The port a player sends `channel` from: its own port for the channel,
/// or else its mono port.
pub open spec fn source_port(ports: Seq<Port>, player: u32, channel: Channel) -> Option<Port> {
    match find_port_spec(ports, player, PortDirection::Output, channel) {
        Some(p) => Some(p),
        None => find_port_spec(ports, player, PortDirection::Output, Channel::Mono),
    }
}

/// Whether the graph already links `output_port` to `input_port`.
pub open spec fn ports_linked(links: Seq<ExistingLink>, output_port: u32, input_port: u32) -> bool {
    exists|i: int|
        0 <= i < links.len() && #[trigger] links[i].output_port == output_port
            && links[i].input_port == input_port
}

/// Finds the first port of `node` with the given direction and channel.
pub fn find_port(ports: &Vec<Port>, node_id: u32, direction: PortDirection, channel: Channel) -> (port:
    Option<Port>)
    ensures
        port == find_port_spec(ports@, node_id, direction, channel),
{
    let mut i: usize = 0;
    assert(ports@.subrange(0, ports@.len() as int) =~= ports@);
    while i < ports.len()
        invariant
            i <= ports@.len(),
            find_port_spec(ports@, node_id, direction, channel) == find_port_spec(
                ports@.subrange(i as int, ports@.len() as int),
                node_id,
                direction,
                channel,
            ),
        decreases ports@.len() - i,
    {
        let p = ports[i];
        assert(ports@.subrange(i as int, ports@.len() as int).drop_first() =~= ports@.subrange(
            i + 1,
            ports@.len() as int,
        ));
        if p.node_id == node_id && p.direction == direction && p.channel == channel {
            return Some(p);
        }
        i = i + 1;
    }
    None
}

/// Whether the graph already links `output_port` to `input_port`.
pub fn has_link(links: &Vec<ExistingLink>, output_port: u32, input_port: u32) -> (linked: bool)
    ensures
        linked == ports_linked(links@, output_port, input_port),
{
    let mut i: usize = 0;
    while i < links.len()
        invariant
            i <= links@.len(),
            forall|k: int|
                0 <= k < i ==> !(#[trigger] links@[k].output_port == output_port
                    && links@[k].input_port == input_port),
        decreases links@.len() - i,
    {
        if links[i].output_port == output_port && links[i].input_port == input_port {
            return true;
        }
        i = i + 1;
    }
    false
}

// ---------------------------------------------------------------------------
// Actions handed to the PipeWire side
// ---------------------------------------------------------------------------

/// What a link that Loom creates is for.
#[derive(Clone, Copy, Debug, PartialEq, Eq, Structural)]
pub enum LinkPurpose {
    /// Carries one channel of a player into the filter.
    Player(u32, Channel),
    /// Carries one channel of the filter out to the target device.
    Output(Channel),
    /// Connects a player straight to the device while Loom shuts down;
    /// such links outlive Loom.
    Shutdown,
}

/// The metadata entries Loom writes.
#[derive(Clone, Copy, Debug, PartialEq, Eq, Structural)]
pub enum MetadataKey {
    /// `default.audio.sink`: the session's default output.
    DefaultSink,
    /// `loom.target.audio.sink`: the output Loom plays into.
    TargetSink,
}

/// Work that the routing decisions ask of the PipeWire side, in order.
#[derive(Clone, Debug)]
pub enum Action {
    /// Create a link from `output` to `input`. `passive` links do not keep
    /// the device awake; `linger` links outlive the client that made them.
    /// On success the caller reports the link with `State::record_link`.
    CreateLink { purpose: LinkPurpose, output: Port, input: Port, passive: bool, linger: bool },
    /// Drop the link held for this purpose (dropping it destroys it).
    ReleaseLink(LinkPurpose),
    /// Destroy the global object with this id.
    DestroyGlobal(u32),
    /// Write a metadata entry of type `Spa:String:JSON` on subject 0.
    SetMetadata(MetadataKey, String),
    /// Report that player links could not be restored because the target
    /// output is unavailable.
    TargetUnavailable,
}

/// The abstract content of an action.
pub enum ActionView {
    CreateLink { purpose: LinkPurpose, output: Port, input: Port, passive: bool, linger: bool },
    ReleaseLink(LinkPurpose),
    DestroyGlobal(u32),
    SetMetadata(MetadataKey, Seq<char>),
    TargetUnavailable,
}

impl View for Action {
    type V = ActionView;

    open spec fn view(&self) -> ActionView {
        match self {
            Action::CreateLink { purpose, output, input, passive, linger } => ActionView::CreateLink {
                purpose: *purpose,
                output: *output,
                input: *input,
                passive: *passive,
                linger: *linger,
            },
            Action::ReleaseLink(p) => ActionView::ReleaseLink(*p),
            Action::DestroyGlobal(id) => ActionView::DestroyGlobal(*id),
            Action::SetMetadata(k, v) => ActionView::SetMetadata(*k, v@),
            Action::TargetUnavailable => ActionView::TargetUnavailable,
        }
    }
}

/// The abstract content of a list of actions.
pub open spec fn actions_view(actions: Seq<Action>) -> Seq<ActionView> {
    actions.map_values(|a: Action| a@)
}

/// The abstract content of a list of nodes.
pub open spec fn nodes_view(nodes: Seq<Node>) -> Seq<NodeView> {
    nodes.map_values(|n: Node| n@)
}

/// The abstract content of an optional string.
pub open spec fn opt_chars(s: Option<String>) -> Option<Seq<char>> {
    match s {
        Some(t) => Some(t@),
        None => None,
    }
}

// ---------------------------------------------------------------------------
// The routing state and its policy
// ---------------------------------------------------------------------------

/// What Loom knows of the PipeWire graph and of its own links. The nodes,
/// ports and links are kept in announcement order, each id at most once
/// (`routing_laws::ids_stay_unique`): routing walks these tables to pick the
/// filter, the players and the fallback device, and a fixed order makes those
/// walks, and so their results, definite.
pub struct State {
    nodes: Vec<Node>,
    ports: Vec<Port>,
    links: Vec<ExistingLink>,
    metadata: Option<u32>,
    default_sink_name: Option<String>,
    default_sink_value: Option<String>,
    saved_sink_name: Option<String>,
    saved_sink_value: Option<String>,
    using_fallback_sink: bool,
    filter_is_default: bool,
    output_links: Vec<(Channel, u32)>,
    player_links: Vec<(u32, Channel, u32)>,
    linked_sink: Option<u32>,
    shutting_down: bool,
    shutdown_links_created: bool,
}

/// The abstract routing state. Links that Loom holds are recorded with the
/// id of their proxy.
#[verifier::ext_equal]
pub struct RoutingView {
    pub nodes: Seq<NodeView>,
    pub ports: Seq<Port>,
    pub links: Seq<ExistingLink>,
    pub metadata: Option<u32>,
    pub default_sink_name: Option<Seq<char>>,
    pub default_sink_value: Option<Seq<char>>,
    pub saved_sink_name: Option<Seq<char>>,
    pub saved_sink_value: Option<Seq<char>>,
    pub using_fallback_sink: bool,
    pub filter_is_default: bool,
    pub output_links: Seq<(Channel, u32)>,
    pub player_links: Seq<(u32, Channel, u32)>,
    pub linked_sink: Option<u32>,
    pub shutting_down: bool,
    pub shutdown_links_created: bool,
}

impl View for State {
    type V = RoutingView;

    closed spec fn view(&self) -> RoutingView {
        RoutingView {
            nodes: nodes_view(self.nodes@),
            ports: self.ports@,
            links: self.links@,
            metadata: self.metadata,
            default_sink_name: opt_chars(self.default_sink_name),
            default_sink_value: opt_chars(self.default_sink_value),
            saved_sink_name: opt_chars(self.saved_sink_name),
            saved_sink_value: opt_chars(self.saved_sink_value),
            using_fallback_sink: self.using_fallback_sink,
            filter_is_default: self.filter_is_default,
            output_links: self.output_links@,
            player_links: self.player_links@,
            linked_sink: self.linked_sink,
            shutting_down: self.shutting_down,
            shutdown_links_created: self.shutdown_links_created,
        }
    }
}

/// A state and the actions that led to it.
pub type Step = (RoutingView, Seq<ActionView>);

impl RoutingView {
    /// A remembered target sink always comes with its metadata value.
    pub open spec fn wf(self) -> bool {
        self.saved_sink_name is Some ==> self.saved_sink_value is Some
    }
}

/// The state before anything of the graph is known.
pub open spec fn initial_view() -> RoutingView {
    RoutingView {
        nodes: Seq::empty(),
        ports: Seq::empty(),
        links: Seq::empty(),
        metadata: None,
        default_sink_name: None,
        default_sink_value: None,
        saved_sink_name: None,
        saved_sink_value: None,
        using_fallback_sink: false,
        filter_is_default: false,
        output_links: Seq::empty(),
        player_links: Seq::empty(),
        linked_sink: None,
        shutting_down: false,
        shutdown_links_created: false,
    }
}

/// Applies `f` to the state of a step and appends the actions it adds.
pub open spec fn then(step: Step, f: spec_fn(RoutingView) -> Step) -> Step {
    let next = f(step.0);
    (next.0, step.1 + next.1)
}

/// The release of a held output link.
pub open spec fn release_output_link(e: (Channel, u32)) -> ActionView {
    ActionView::ReleaseLink(LinkPurpose::Output(e.0))
}

/// Forgets the output links: each is released, and no device counts as
/// linked any more.
pub open spec fn clear_output_links_spec(s: RoutingView) -> Step {
    (
        RoutingView { output_links: Seq::empty(), linked_sink: None, ..s },
        s.output_links.map_values(|e: (Channel, u32)| release_output_link(e)),
    )
}

/// While the filter is the session default, points the session default
/// back at the device Loom plays into.
pub open spec fn restore_default_spec(s: RoutingView) -> Seq<ActionView> {
    if s.filter_is_default && s.metadata is Some && s.default_sink_value is Some {
        seq![ActionView::SetMetadata(MetadataKey::DefaultSink, s.default_sink_value.unwrap())]
    } else {
        Seq::empty()
    }
}

/// Remembers the current target device in Loom's own metadata entry, unless
/// it is remembered already.
pub open spec fn save_target_sink_spec(s: RoutingView) -> Step {
    if s.metadata is Some && s.default_sink_value is Some && s.saved_sink_value
        != s.default_sink_value {
        (
            RoutingView {
                saved_sink_name: s.default_sink_name,
                saved_sink_value: s.default_sink_value,
                ..s
            },
            seq![ActionView::SetMetadata(MetadataKey::TargetSink, s.default_sink_value.unwrap())],
        )
    } else {
        (s, Seq::empty())
    }
}

/// The metadata value that names a sink: `{"name":"<name>"}`.
pub open spec fn name_value(name: Seq<char>) -> Seq<char> {
    seq!['{', '"', 'n', 'a', 'm', 'e', '"', ':', '"'] + name + seq!['"', '}']
}

/// When the filter has become the session default and Loom has no real
/// target (or only a fallback), picks the target: the remembered device if
/// present, else the fallback device; takes it as the target, forgets the
/// output links and points the session default back at it.
pub open spec fn recover_target_sink_spec(s: RoutingView) -> Step {
    if !s.filter_is_default || (s.default_sink_name is Some && !s.using_fallback_sink) {
        (s, Seq::empty())
    } else {
        let saved = match s.saved_sink_name {
            Some(n) => sink_named(s.nodes, n),
            None => None,
        };
        let target = if saved is Some {
            saved
        } else {
            fallback_sink(s.nodes)
        };
        match target {
            None => (s, Seq::empty()),
            Some(t) => if s.default_sink_name == Some(t.name) {
                (s, Seq::empty())
            } else {
                let value = if saved is None {
                    name_value(t.name)
                } else {
                    s.saved_sink_value.unwrap()
                };
                let s1 = RoutingView {
                    default_sink_name: Some(t.name),
                    default_sink_value: Some(value),
                    using_fallback_sink: saved is None,
                    ..s
                };
                let cleared = clear_output_links_spec(s1);
                (cleared.0, cleared.1 + restore_default_spec(cleared.0))
            },
        }
    }
}

/// Whether Loom holds a link for this channel of this player.
pub open spec fn has_player_link(links: Seq<(u32, Channel, u32)>, player: u32, channel: Channel) -> bool {
    exists|i: int| 0 <= i < links.len() && #[trigger] links[i].0 == player && links[i].1 == channel
}

/// Whether Loom holds an output link for this channel.
pub open spec fn has_output_link(links: Seq<(Channel, u32)>, channel: Channel) -> bool {
    exists|i: int| 0 <= i < links.len() && #[trigger] links[i].0 == channel
}

/// The link, if any, that one channel of a player needs into the filter: it
/// is needed when both ends exist and neither Loom nor anyone else links
/// them already.
pub open spec fn player_channel_plan(s: RoutingView, filter: u32, player: u32, channel: Channel) -> Seq<
    ActionView,
> {
    match (
        source_port(s.ports, player, channel),
        find_port_spec(s.ports, filter, PortDirection::Input, channel),
    ) {
        (Some(output), Some(input)) => if !has_player_link(s.player_links, player, channel)
            && !ports_linked(s.links, output.id, input.id) {
            seq![
                ActionView::CreateLink {
                    purpose: LinkPurpose::Player(player, channel),
                    output,
                    input,
                    passive: false,
                    linger: false,
                },
            ]
        } else {
            Seq::empty()
        },
        _ => Seq::empty(),
    }
}

/// The links that the given players need into the filter, left channel then
/// right channel of each player in turn.
pub open spec fn player_plan(s: RoutingView, filter: u32, players: Seq<u32>) -> Seq<ActionView>
    decreases players.len(),
{
    if players.len() == 0 {
        Seq::empty()
    } else {
        player_plan(s, filter, players.drop_last()) + player_channel_plan(
            s,
            filter,
            players.last(),
            Channel::Left,
        ) + player_channel_plan(s, filter, players.last(), Channel::Right)
    }
}

/// How many links run from `node` into `filter`.
pub open spec fn links_into(links: Seq<ExistingLink>, node: u32, filter: u32) -> nat
    decreases links.len(),
{
    if links.len() == 0 {
        0
    } else {
        links_into(links.drop_last(), node, filter) + if links.last().output_node == node
            && links.last().input_node == filter {
            1nat
        } else {
            0nat
        }
    }
}

/// Whether `id` is an audio output device.
pub open spec fn is_sink_id(nodes: Seq<NodeView>, id: u32) -> bool {
    exists|i: int|
        0 <= i < nodes.len() && #[trigger] nodes[i].id == id && nodes[i].media_class
            == audio_sink_class()
}

/// Whether a link lets a player bypass the filter: the player already has
/// two links into the filter, and this one goes straight to a device.
pub open spec fn is_bypass_link(s: RoutingView, filter: u32, players: Seq<u32>, link: ExistingLink) -> bool {
    players.contains(link.output_node) && links_into(s.links, link.output_node, filter) >= 2
        && link.input_node != filter && is_sink_id(s.nodes, link.input_node)
}

/// The links among `links` that do not bypass the filter, in order.
pub open spec fn links_kept(s: RoutingView, filter: u32, players: Seq<u32>, links: Seq<ExistingLink>) -> Seq<
    ExistingLink,
>
    decreases links.len(),
{
    if links.len() == 0 {
        Seq::empty()
    } else if is_bypass_link(s, filter, players, links.last()) {
        links_kept(s, filter, players, links.drop_last())
    } else {
        links_kept(s, filter, players, links.drop_last()).push(links.last())
    }
}

/// The destruction of each link among `links` that bypasses the filter,
/// in order.
pub open spec fn bypass_destroys(
    s: RoutingView,
    filter: u32,
    players: Seq<u32>,
    links: Seq<ExistingLink>,
) -> Seq<ActionView>
    decreases links.len(),
{
    if links.len() == 0 {
        Seq::empty()
    } else if is_bypass_link(s, filter, players, links.last()) {
        bypass_destroys(s, filter, players, links.drop_last()).push(
            ActionView::DestroyGlobal(links.last().id),
        )
    } else {
        bypass_destroys(s, filter, players, links.drop_last())
    }
}

/// Routes every player through the filter: asks for the missing player
/// links, then destroys the links by which fully connected players still
/// reach a device directly.
pub open spec fn route_players_spec(s: RoutingView) -> Step {
    match filter_node(s.nodes) {
        None => (s, Seq::empty()),
        Some(f) => {
            let players = player_ids(s.nodes);
            (
                RoutingView { links: links_kept(s, f.id, players, s.links), ..s },
                player_plan(s, f.id, players) + bypass_destroys(s, f.id, players, s.links),
            )
        },
    }
}

/// The output link, if any, that one channel needs from the filter to the
/// target device.
pub open spec fn output_channel_plan(s: RoutingView, filter: u32, sink: u32, channel: Channel) -> Seq<
    ActionView,
> {
    if has_output_link(s.output_links, channel) {
        Seq::empty()
    } else {
        match (
            find_port_spec(s.ports, filter, PortDirection::Output, channel),
            find_port_spec(s.ports, sink, PortDirection::Input, channel),
        ) {
            (Some(output), Some(input)) => seq![
                ActionView::CreateLink {
                    purpose: LinkPurpose::Output(channel),
                    output,
                    input,
                    passive: true,
                    linger: false,
                },
            ],
            _ => Seq::empty(),
        }
    }
}

/// Connects the filter to the target device: when the target changed the
/// old output links are forgotten first, then each missing channel is
/// linked.
pub open spec fn route_output_spec(s: RoutingView) -> Step {
    match filter_node(s.nodes) {
        None => (s, Seq::empty()),
        Some(f) => match s.default_sink_name {
            None => (s, Seq::empty()),
            Some(name) => match sink_named(s.nodes, name) {
                None => (s, Seq::empty()),
                Some(sink) => {
                    let relinked: Step = if s.linked_sink != Some(sink.id) {
                        let cleared = clear_output_links_spec(s);
                        (RoutingView { linked_sink: Some(sink.id), ..cleared.0 }, cleared.1)
                    } else {
                        (s, Seq::empty())
                    };
                    (
                        relinked.0,
                        relinked.1 + output_channel_plan(relinked.0, f.id, sink.id, Channel::Left)
                            + output_channel_plan(relinked.0, f.id, sink.id, Channel::Right),
                    )
                },
            },
        },
    }
}

/// Brings the links in line with the graph, unless Loom is shutting down.
pub open spec fn reconcile_spec(s: RoutingView) -> Step {
    if s.shutting_down {
        (s, Seq::empty())
    } else {
        then(
            then(recover_target_sink_spec(s), |t: RoutingView| route_players_spec(t)),
            |t: RoutingView| route_output_spec(t),
        )
    }
}

// ---------------------------------------------------------------------------
// Global objects announced by the registry
// ---------------------------------------------------------------------------

/// The kind of a global object.
#[derive(Clone, Copy, Debug, PartialEq, Eq, Structural)]
pub enum ObjectType {
    Node,
    Port,
    Link,
    Metadata,
    Other,
}

/// The properties of a global object that routing reads, each as the
/// registry announced it.
#[derive(Clone, Debug)]
pub struct GlobalProps {
    /// `node.name`
    pub node_name: Option<String>,
    /// `media.class`
    pub media_class: Option<String>,
    /// `priority.session`
    pub priority_session: Option<String>,
    /// `node.id`
    pub node_id: Option<String>,
    /// `port.direction`
    pub port_direction: Option<String>,
    /// `audio.channel`
    pub audio_channel: Option<String>,
    /// `link.output.node`
    pub link_output_node: Option<String>,
    /// `link.input.node`
    pub link_input_node: Option<String>,
    /// `link.output.port`
    pub link_output_port: Option<String>,
    /// `link.input.port`
    pub link_input_port: Option<String>,
    /// `metadata.name`
    pub metadata_name: Option<String>,
}

/// A global object announced by the registry.
#[derive(Clone, Debug)]
pub struct GlobalObject {
    pub id: u32,
    pub object_type: ObjectType,
    pub props: Option<GlobalProps>,
}

/// The abstract properties of a global object.
pub struct GlobalPropsView {
    pub node_name: Option<Seq<char>>,
    pub media_class: Option<Seq<char>>,
    pub priority_session: Option<Seq<char>>,
    pub node_id: Option<Seq<char>>,
    pub port_direction: Option<Seq<char>>,
    pub audio_channel: Option<Seq<char>>,
    pub link_output_node: Option<Seq<char>>,
    pub link_input_node: Option<Seq<char>>,
    pub link_output_port: Option<Seq<char>>,
    pub link_input_port: Option<Seq<char>>,
    pub metadata_name: Option<Seq<char>>,
}

impl View for GlobalProps {
    type V = GlobalPropsView;

    open spec fn view(&self) -> GlobalPropsView {
        GlobalPropsView {
            node_name: opt_chars(self.node_name),
            media_class: opt_chars(self.media_class),
            priority_session: opt_chars(self.priority_session),
            node_id: opt_chars(self.node_id),
            port_direction: opt_chars(self.port_direction),
            audio_channel: opt_chars(self.audio_channel),
            link_output_node: opt_chars(self.link_output_node),
            link_input_node: opt_chars(self.link_input_node),
            link_output_port: opt_chars(self.link_output_port),
            link_input_port: opt_chars(self.link_input_port),
            metadata_name: opt_chars(self.metadata_name),
        }
    }
}

/// What a global object adds to the known graph.
pub enum Entry {
    Node(NodeView),
    Port(Port),
    Link(ExistingLink),
}

/// A property read as an unsigned 32-bit number, when it is one.
pub open spec fn prop_u32(value: Option<Seq<char>>) -> Option<u32> {
    match value {
        Some(text) => match parse_unsigned(text, u32::MAX as nat) {
            Some(n) => Some(n as u32),
            None => None,
        },
        None => None,
    }
}

/// The direction a `port.direction` value names.
pub open spec fn direction_of(value: Option<Seq<char>>) -> Option<PortDirection> {
    match value {
        Some(text) => if text == "in"@ {
            Some(PortDirection::Input)
        } else if text == "out"@ {
            Some(PortDirection::Output)
        } else {
            None
        },
        None => None,
    }
}

/// The channel an `audio.channel` value names.
pub open spec fn channel_prop(value: Option<Seq<char>>) -> Option<Channel> {
    match value {
        Some(text) => channel_of_name(text),
        None => None,
    }
}

/// The abstract properties of a global object, if it has any.
pub open spec fn props_view(props: Option<GlobalProps>) -> Option<GlobalPropsView> {
    match props {
        Some(p) => Some(p@),
        None => None,
    }
}

/// What a global object adds to the graph: a node needs a name (its class
/// defaults to empty and its priority to 0); a port needs its node, an `in`
/// or `out` direction and a known channel; a link needs both nodes and both
/// ports; anything else, or anything without properties, adds nothing.
pub open spec fn global_entry(id: u32, object_type: ObjectType, props: Option<GlobalPropsView>) -> Option<
    Entry,
> {
    match props {
        None => None,
        Some(p) => match object_type {
            ObjectType::Node => match p.node_name {
                None => None,
                Some(name) => Some(
                    Entry::Node(
                        NodeView {
                            id,
                            name,
                            media_class: match p.media_class {
                                Some(c) => c,
                                None => Seq::empty(),
                            },
                            priority: match prop_u32(p.priority_session) {
                                Some(n) => n,
                                None => 0,
                            },
                        },
                    ),
                ),
            },
            ObjectType::Port => match (
                prop_u32(p.node_id),
                direction_of(p.port_direction),
                channel_prop(p.audio_channel),
            ) {
                (Some(node_id), Some(direction), Some(channel)) => Some(
                    Entry::Port(Port { id, node_id, direction, channel }),
                ),
                _ => None,
            },
            ObjectType::Link => match (
                prop_u32(p.link_output_node),
                prop_u32(p.link_input_node),
                prop_u32(p.link_output_port),
                prop_u32(p.link_input_port),
            ) {
                (Some(output_node), Some(input_node), Some(output_port), Some(input_port)) => Some(
                    Entry::Link(
                        ExistingLink { id, output_node, output_port, input_node, input_port },
                    ),
                ),
                _ => None,
            },
            _ => None,
        },
    }
}

/// Whether a global object is the session's `default` metadata.
pub open spec fn is_default_metadata_spec(object_type: ObjectType, props: Option<GlobalPropsView>) -> bool {
    object_type == ObjectType::Metadata && (props matches Some(p) && p.metadata_name == Some(
        "default"@,
    ))
}

/// Whether some node has this id.
pub open spec fn has_node_id(nodes: Seq<NodeView>, id: u32) -> bool {
    exists|i: int| 0 <= i < nodes.len() && #[trigger] nodes[i].id == id
}

/// Whether some port has this id.
pub open spec fn has_port_id(ports: Seq<Port>, id: u32) -> bool {
    exists|i: int| 0 <= i < ports.len() && #[trigger] ports[i].id == id
}

/// Whether some link has this id.
pub open spec fn has_link_id(links: Seq<ExistingLink>, id: u32) -> bool {
    exists|i: int| 0 <= i < links.len() && #[trigger] links[i].id == id
}

/// The nodes with `node` in place of the node of the same id, or with
/// `node` added when there is none.
pub open spec fn upsert_node(nodes: Seq<NodeView>, node: NodeView) -> Seq<NodeView> {
    if has_node_id(nodes, node.id) {
        Seq::new(nodes.len(), |i: int| if nodes[i].id == node.id { node } else { nodes[i] })
    } else {
        nodes.push(node)
    }
}

/// The ports with `port` in place of the port of the same id, or with
/// `port` added when there is none.
pub open spec fn upsert_port(ports: Seq<Port>, port: Port) -> Seq<Port> {
    if has_port_id(ports, port.id) {
        Seq::new(ports.len(), |i: int| if ports[i].id == port.id { port } else { ports[i] })
    } else {
        ports.push(port)
    }
}

/// The links with `link` in place of the link of the same id, or with
/// `link` added when there is none.
pub open spec fn upsert_link(links: Seq<ExistingLink>, link: ExistingLink) -> Seq<ExistingLink> {
    if has_link_id(links, link.id) {
        Seq::new(links.len(), |i: int| if links[i].id == link.id { link } else { links[i] })
    } else {
        links.push(link)
    }
}

/// The state with an entry recorded.
pub open spec fn insert_entry(s: RoutingView, entry: Entry) -> RoutingView {
    match entry {
        Entry::Node(n) => RoutingView { nodes: upsert_node(s.nodes, n), ..s },
        Entry::Port(p) => RoutingView { ports: upsert_port(s.ports, p), ..s },
        Entry::Link(l) => RoutingView { links: upsert_link(s.links, l), ..s },
    }
}

/// Records an announced object and reconciles; an object that adds nothing
/// changes nothing.
pub open spec fn add_global_spec(
    s: RoutingView,
    id: u32,
    object_type: ObjectType,
    props: Option<GlobalPropsView>,
) -> Step {
    match global_entry(id, object_type, props) {
        None => (s, Seq::empty()),
        Some(entry) => reconcile_spec(insert_entry(s, entry)),
    }
}

/// The nodes other than `id`, in order.
pub open spec fn nodes_without(nodes: Seq<NodeView>, id: u32) -> Seq<NodeView>
    decreases nodes.len(),
{
    if nodes.len() == 0 {
        Seq::empty()
    } else if nodes.last().id == id {
        nodes_without(nodes.drop_last(), id)
    } else {
        nodes_without(nodes.drop_last(), id).push(nodes.last())
    }
}

/// The ports other than `id`, in order.
pub open spec fn ports_without(ports: Seq<Port>, id: u32) -> Seq<Port>
    decreases ports.len(),
{
    if ports.len() == 0 {
        Seq::empty()
    } else if ports.last().id == id {
        ports_without(ports.drop_last(), id)
    } else {
        ports_without(ports.drop_last(), id).push(ports.last())
    }
}

/// The links other than `id`, in order.
pub open spec fn links_without(links: Seq<ExistingLink>, id: u32) -> Seq<ExistingLink>
    decreases links.len(),
{
    if links.len() == 0 {
        Seq::empty()
    } else if links.last().id == id {
        links_without(links.drop_last(), id)
    } else {
        links_without(links.drop_last(), id).push(links.last())
    }
}

/// Which held player links a removal drops.
#[derive(Clone, Copy, Debug, PartialEq, Eq, Structural)]
pub enum PlayerLinkFilter {
    /// Those whose proxy has this id.
    Proxy(u32),
    /// Those of this player.
    Player(u32),
    /// The one of this player and channel.
    Key(u32, Channel),
}

/// Whether a held player link is dropped by a removal.
pub open spec fn player_link_dropped(e: (u32, Channel, u32), which: PlayerLinkFilter) -> bool {
    match which {
        PlayerLinkFilter::Proxy(id) => e.2 == id,
        PlayerLinkFilter::Player(player) => e.0 == player,
        PlayerLinkFilter::Key(player, channel) => e.0 == player && e.1 == channel,
    }
}

/// The held player links a removal keeps, in order.
pub open spec fn player_links_kept(links: Seq<(u32, Channel, u32)>, which: PlayerLinkFilter) -> Seq<
    (u32, Channel, u32),
>
    decreases links.len(),
{
    if links.len() == 0 {
        Seq::empty()
    } else if player_link_dropped(links.last(), which) {
        player_links_kept(links.drop_last(), which)
    } else {
        player_links_kept(links.drop_last(), which).push(links.last())
    }
}

/// The release of each held player link a removal drops, in order.
pub open spec fn player_link_releases(links: Seq<(u32, Channel, u32)>, which: PlayerLinkFilter) -> Seq<
    ActionView,
>
    decreases links.len(),
{
    if links.len() == 0 {
        Seq::empty()
    } else if player_link_dropped(links.last(), which) {
        player_link_releases(links.drop_last(), which).push(
            ActionView::ReleaseLink(LinkPurpose::Player(links.last().0, links.last().1)),
        )
    } else {
        player_link_releases(links.drop_last(), which)
    }
}

/// The held output links whose proxy is not `id`, in order.
pub open spec fn output_links_kept(links: Seq<(Channel, u32)>, id: u32) -> Seq<(Channel, u32)>
    decreases links.len(),
{
    if links.len() == 0 {
        Seq::empty()
    } else if links.last().1 == id {
        output_links_kept(links.drop_last(), id)
    } else {
        output_links_kept(links.drop_last(), id).push(links.last())
    }
}

/// The release of each held output link whose proxy is `id`, in order.
pub open spec fn output_link_releases(links: Seq<(Channel, u32)>, id: u32) -> Seq<ActionView>
    decreases links.len(),
{
    if links.len() == 0 {
        Seq::empty()
    } else if links.last().1 == id {
        output_link_releases(links.drop_last(), id).push(
            ActionView::ReleaseLink(LinkPurpose::Output(links.last().0)),
        )
    } else {
        output_link_releases(links.drop_last(), id)
    }
}

/// The first port with this id.
pub open spec fn port_with_id(ports: Seq<Port>, id: u32) -> Option<Port>
    decreases ports.len(),
{
    if ports.len() == 0 {
        None
    } else if ports[0].id == id {
        Some(ports[0])
    } else {
        port_with_id(ports.drop_first(), id)
    }
}

/// Removing a link: the link is forgotten, and so is every link Loom holds
/// through a proxy of that id.
pub open spec fn remove_link_step(s: RoutingView, id: u32) -> Step {
    if has_link_id(s.links, id) {
        (
            RoutingView {
                links: links_without(s.links, id),
                player_links: player_links_kept(s.player_links, PlayerLinkFilter::Proxy(id)),
                output_links: output_links_kept(s.output_links, id),
                ..s
            },
            player_link_releases(s.player_links, PlayerLinkFilter::Proxy(id))
                + output_link_releases(s.output_links, id),
        )
    } else {
        (s, Seq::empty())
    }
}

/// Removing the metadata object: Loom no longer knows the session default.
pub open spec fn remove_metadata_step(s: RoutingView, id: u32) -> Step {
    if s.metadata == Some(id) {
        (RoutingView { metadata: None, filter_is_default: false, ..s }, Seq::empty())
    } else {
        (s, Seq::empty())
    }
}

/// Removing a node: its player links are dropped, and the output links too
/// when the node was the filter or the linked device.
pub open spec fn remove_node_step(s: RoutingView, id: u32) -> Step {
    if has_node_id(s.nodes, id) {
        let removed_filter = exists|i: int|
            0 <= i < s.nodes.len() && #[trigger] s.nodes[i].id == id && is_filter_node(s.nodes[i]);
        let t = RoutingView {
            nodes: nodes_without(s.nodes, id),
            player_links: player_links_kept(s.player_links, PlayerLinkFilter::Player(id)),
            ..s
        };
        let released = player_link_releases(s.player_links, PlayerLinkFilter::Player(id));
        if removed_filter || t.linked_sink == Some(id) {
            let cleared = clear_output_links_spec(t);
            (cleared.0, released + cleared.1)
        } else {
            (t, released)
        }
    } else {
        (s, Seq::empty())
    }
}

/// Removing a port: when it belonged to the filter or the linked device the
/// output links are dropped, otherwise the player link of its channel is.
pub open spec fn remove_port_step(s: RoutingView, id: u32) -> Step {
    match port_with_id(s.ports, id) {
        None => (s, Seq::empty()),
        Some(port) => {
            let t = RoutingView { ports: ports_without(s.ports, id), ..s };
            let filter_owns = filter_node(t.nodes) matches Some(f) && f.id == port.node_id;
            if filter_owns || t.linked_sink == Some(port.node_id) {
                clear_output_links_spec(t)
            } else {
                (
                    RoutingView {
                        player_links: player_links_kept(
                            t.player_links,
                            PlayerLinkFilter::Key(port.node_id, port.channel),
                        ),
                        ..t
                    },
                    player_link_releases(
                        t.player_links,
                        PlayerLinkFilter::Key(port.node_id, port.channel),
                    ),
                )
            }
        },
    }
}

/// Forgets a global object that the registry removed, drops what depended
/// on it, and reconciles.
pub open spec fn remove_global_spec(s: RoutingView, id: u32) -> Step {
    then(
        then(
            then(
                then(remove_link_step(s, id), |t: RoutingView| remove_metadata_step(t, id)),
                |t: RoutingView| remove_node_step(t, id),
            ),
            |t: RoutingView| remove_port_step(t, id),
        ),
        |t: RoutingView| reconcile_spec(t),
    )
}

/// The abstract content of an optional string slice.
pub open spec fn opt_str(s: Option<&str>) -> Option<Seq<char>> {
    match s {
        Some(t) => Some(t@),
        None => None,
    }
}

/// The sink name a metadata value carries, if any.
pub open spec fn value_sink_name(value: Option<Seq<char>>) -> Option<Seq<char>> {
    match value {
        Some(v) => default_sink_name_spec(v),
        None => None,
    }
}

/// The session default changed. If it is now the filter, Loom notes that
/// and reconciles; otherwise the named device becomes Loom's target (the
/// output links are dropped when the target changed), is remembered, and
/// Loom reconciles.
pub open spec fn set_default_sink_spec(s: RoutingView, value: Option<Seq<char>>) -> Step {
    let name = value_sink_name(value);
    if name == Some(filter_node_name()) {
        reconcile_spec(RoutingView { filter_is_default: true, ..s })
    } else {
        let t = RoutingView { filter_is_default: false, using_fallback_sink: false, ..s };
        let retargeted: Step = if name != s.default_sink_name {
            clear_output_links_spec(
                RoutingView { default_sink_name: name, default_sink_value: value, ..t },
            )
        } else {
            (t, Seq::empty())
        };
        then(
            then(retargeted, |u: RoutingView| save_target_sink_spec(u)),
            |u: RoutingView| reconcile_spec(u),
        )
    }
}

/// Loom's remembered target changed: unless it names the filter, it is
/// taken and Loom reconciles.
pub open spec fn set_saved_sink_spec(s: RoutingView, value: Option<Seq<char>>) -> Step {
    let name = value_sink_name(value);
    if name == Some(filter_node_name()) {
        (s, Seq::empty())
    } else {
        reconcile_spec(RoutingView { saved_sink_name: name, saved_sink_value: value, ..s })
    }
}

/// The session's `default` metadata was bound.
pub open spec fn metadata_bound_spec(s: RoutingView, id: u32) -> Step {
    reconcile_spec(RoutingView { metadata: Some(id), ..s })
}

/// The first request to shut down stops all routing and points the session
/// default back at the target device; later requests do nothing.
pub open spec fn prepare_shutdown_spec(s: RoutingView) -> Step {
    if s.shutting_down {
        (s, Seq::empty())
    } else {
        (RoutingView { shutting_down: true, ..s }, restore_default_spec(s))
    }
}

/// The link, if any, that one channel of a player needs straight to the
/// device while Loom shuts down.
pub open spec fn shutdown_channel_plan(s: RoutingView, sink: u32, player: u32, channel: Channel) -> Seq<
    ActionView,
> {
    match (
        source_port(s.ports, player, channel),
        find_port_spec(s.ports, sink, PortDirection::Input, channel),
    ) {
        (Some(output), Some(input)) => if !ports_linked(s.links, output.id, input.id) {
            seq![
                ActionView::CreateLink {
                    purpose: LinkPurpose::Shutdown,
                    output,
                    input,
                    passive: false,
                    linger: true,
                },
            ]
        } else {
            Seq::empty()
        },
        _ => Seq::empty(),
    }
}

/// The direct links the given players need while Loom shuts down.
pub open spec fn shutdown_plan(s: RoutingView, sink: u32, players: Seq<u32>) -> Seq<ActionView>
    decreases players.len(),
{
    if players.len() == 0 {
        Seq::empty()
    } else {
        shutdown_plan(s, sink, players.drop_last()) + shutdown_channel_plan(
            s,
            sink,
            players.last(),
            Channel::Left,
        ) + shutdown_channel_plan(s, sink, players.last(), Channel::Right)
    }
}

/// The device players are reconnected to at shutdown: the linked device,
/// else the target device.
pub open spec fn shutdown_sink(s: RoutingView) -> Option<u32> {
    match s.linked_sink {
        Some(id) => Some(id),
        None => match s.default_sink_name {
            Some(name) => match sink_named(s.nodes, name) {
                Some(n) => Some(n.id),
                None => None,
            },
            None => None,
        },
    }
}

/// The first call links every player straight to the device (reporting
/// when there is no device to link to); later calls do nothing.
pub open spec fn finish_shutdown_spec(s: RoutingView) -> Step {
    if s.shutdown_links_created {
        (s, Seq::empty())
    } else {
        let t = RoutingView { shutdown_links_created: true, ..s };
        match shutdown_sink(s) {
            None => (t, seq![ActionView::TargetUnavailable]),
            Some(sink) => (t, shutdown_plan(s, sink, player_ids(s.nodes))),
        }
    }
}

/// The held player links with the link for `(player, channel)` recorded
/// through proxy `proxy`, replacing any it held before.
pub open spec fn record_player_link(
    links: Seq<(u32, Channel, u32)>,
    player: u32,
    channel: Channel,
    proxy: u32,
) -> Seq<(u32, Channel, u32)> {
    player_links_kept(links, PlayerLinkFilter::Key(player, channel)).push((player, channel, proxy))
}

/// The held output links with the link for `channel` recorded through
/// proxy `proxy`, replacing any it held before.
pub open spec fn record_output_link(links: Seq<(Channel, u32)>, channel: Channel, proxy: u32) -> Seq<
    (Channel, u32),
> {
    output_links_for_other(links, channel).push((channel, proxy))
}

/// The held output links for channels other than `channel`, in order.
pub open spec fn output_links_for_other(links: Seq<(Channel, u32)>, channel: Channel) -> Seq<
    (Channel, u32),
>
    decreases links.len(),
{
    if links.len() == 0 {
        Seq::empty()
    } else if links.last().0 == channel {
        output_links_for_other(links.drop_last(), channel)
    } else {
        output_links_for_other(links.drop_last(), channel).push(links.last())
    }
}

/// A link Loom asked for was created with proxy `proxy`.
pub open spec fn record_link_spec(s: RoutingView, purpose: LinkPurpose, proxy: u32) -> RoutingView {
    match purpose {
        LinkPurpose::Player(player, channel) => RoutingView {
            player_links: record_player_link(s.player_links, player, channel, proxy),
            ..s
        },
        LinkPurpose::Output(channel) => RoutingView {
            output_links: record_output_link(s.output_links, channel, proxy),
            ..s
        },
        LinkPurpose::Shutdown => s,
    }
}

// ---------------------------------------------------------------------------
// Node lookups
// ---------------------------------------------------------------------------

/// The position of the filter node among `nodes`.
fn find_filter(nodes: &Vec<Node>) -> (index: Option<usize>)
    ensures
        match filter_node(nodes_view(nodes@)) {
            Some(n) => index matches Some(i) && i < nodes@.len() && nodes@[i as int]@ == n,
            None => index is None,
        },
{
    let ghost nv = nodes_view(nodes@);
    let mut i: usize = 0;
    assert(nv.subrange(0, nv.len() as int) =~= nv);
    while i < nodes.len()
        invariant
            nv == nodes_view(nodes@),
            i <= nodes@.len(),
            filter_node(nv) == filter_node(nv.subrange(i as int, nv.len() as int)),
        decreases nodes@.len() - i,
    {
        assert(nv.subrange(i as int, nv.len() as int).drop_first() =~= nv.subrange(
            i + 1,
            nv.len() as int,
        ));
        assert(nv[i as int] == nodes@[i as int]@);
        if nodes[i].is_filter() {
            return Some(i);
        }
        i = i + 1;
    }
    None
}

/// The position among `nodes` of the audio output device called `name`.
fn find_sink_named(nodes: &Vec<Node>, name: &String) -> (index: Option<usize>)
    ensures
        match sink_named(nodes_view(nodes@), name@) {
            Some(n) => index matches Some(i) && i < nodes@.len() && nodes@[i as int]@ == n,
            None => index is None,
        },
{
    let ghost nv = nodes_view(nodes@);
    let mut i: usize = 0;
    assert(nv.subrange(0, nv.len() as int) =~= nv);
    while i < nodes.len()
        invariant
            nv == nodes_view(nodes@),
            i <= nodes@.len(),
            sink_named(nv, name@) == sink_named(nv.subrange(i as int, nv.len() as int), name@),
        decreases nodes@.len() - i,
    {
        assert(nv.subrange(i as int, nv.len() as int).drop_first() =~= nv.subrange(
            i + 1,
            nv.len() as int,
        ));
        assert(nv[i as int] == nodes@[i as int]@);
        if nodes[i].name == *name && nodes[i].is_audio_sink() {
            return Some(i);
        }
        i = i + 1;
    }
    None
}

/// The position among `nodes` of the device to fall back to.
fn find_fallback_sink(nodes: &Vec<Node>) -> (index: Option<usize>)
    ensures
        match fallback_sink(nodes_view(nodes@)) {
            Some(n) => index matches Some(i) && i < nodes@.len() && nodes@[i as int]@ == n,
            None => index is None,
        },
{
    let ghost nv = nodes_view(nodes@);
    let mut best: Option<usize> = None;
    let mut i: usize = 0;
    while i < nodes.len()
        invariant
            nv == nodes_view(nodes@),
            i <= nodes@.len(),
            match fallback_sink(nv.take(i as int)) {
                Some(n) => best matches Some(b) && b < i && nodes@[b as int]@ == n,
                None => best is None,
            },
        decreases nodes@.len() - i,
    {
        assert(nv.take(i + 1).drop_last() =~= nv.take(i as int));
        assert(nv.take(i + 1).last() == nodes@[i as int]@);
        let n = &nodes[i];
        if !n.is_filter() && n.is_audio_sink() {
            match best {
                None => {
                    best = Some(i);
                },
                Some(b) => {
                    if nodes[b].priority <= n.priority {
                        best = Some(i);
                    }
                },
            }
        }
        i = i + 1;
    }
    assert(nv.take(nodes@.len() as int) =~= nv);
    best
}

/// The ids of the playing applications, in announcement order.
fn collect_player_ids(nodes: &Vec<Node>) -> (ids: Vec<u32>)
    ensures
        ids@ == player_ids(nodes_view(nodes@)),
{
    let ghost nv = nodes_view(nodes@);
    let mut ids: Vec<u32> = Vec::new();
    let mut i: usize = 0;
    while i < nodes.len()
        invariant
            nv == nodes_view(nodes@),
            i <= nodes@.len(),
            ids@ == player_ids(nv.take(i as int)),
        decreases nodes@.len() - i,
    {
        assert(nv.take(i + 1).drop_last() =~= nv.take(i as int));
        assert(nv.take(i + 1).last() == nodes@[i as int]@);
        if nodes[i].is_player() {
            ids.push(nodes[i].id);
        }
        i = i + 1;
    }
    assert(nv.take(nodes@.len() as int) =~= nv);
    ids
}

proof fn lemma_actions_push(actions: Seq<Action>, action: Action)
    ensures
        actions_view(actions.push(action)) == actions_view(actions).push(action@),
{
    assert(actions_view(actions.push(action)) =~= actions_view(actions).push(action@));
}

/// Whether `ids` holds `id`.
fn contains_id(ids: &Vec<u32>, id: u32) -> (found: bool)
    ensures
        found == ids@.contains(id),
{
    let mut i: usize = 0;
    while i < ids.len()
        invariant
            i <= ids@.len(),
            forall|k: int| 0 <= k < i ==> ids@[k] != id,
        decreases ids@.len() - i,
    {
        if ids[i] == id {
            assert(ids@[i as int] == id);
            return true;
        }
        i = i + 1;
    }
    false
}

/// How many links run from `node` into `filter`.
fn count_links_into(links: &Vec<ExistingLink>, node: u32, filter: u32) -> (count: usize)
    ensures
        count == links_into(links@, node, filter),
{
    let mut count: usize = 0;
    let mut i: usize = 0;
    while i < links.len()
        invariant
            i <= links@.len(),
            count == links_into(links@.take(i as int), node, filter),
            count <= i,
        decreases links@.len() - i,
    {
        assert(links@.take(i + 1).drop_last() =~= links@.take(i as int));
        assert(links@.take(i + 1).last() == links@[i as int]);
        if links[i].output_node == node && links[i].input_node == filter {
            count = count + 1;
        }
        i = i + 1;
    }
    assert(links@.take(i as int) =~= links@);
    count
}

/// Whether `id` is an audio output device.
fn is_sink_node(nodes: &Vec<Node>, id: u32) -> (sink: bool)
    ensures
        sink == is_sink_id(nodes_view(nodes@), id),
{
    let ghost nv = nodes_view(nodes@);
    let mut i: usize = 0;
    while i < nodes.len()
        invariant
            nv == nodes_view(nodes@),
            nv.len() == nodes@.len(),
            i <= nodes@.len(),
            forall|k: int|
                0 <= k < i ==> !(#[trigger] nv[k].id == id && nv[k].media_class
                    == audio_sink_class()),
        decreases nodes@.len() - i,
    {
        assert(nv[i as int] == nodes@[i as int]@);
        if nodes[i].id == id && nodes[i].is_audio_sink() {
            assert(nv[i as int].id == id && nv[i as int].media_class == audio_sink_class());
            return true;
        }
        i = i + 1;
    }
    false
}

/// Whether Loom holds a link for this channel of this player.
fn holds_player_link(links: &Vec<(u32, Channel, u32)>, player: u32, channel: Channel) -> (held: bool)
    ensures
        held == has_player_link(links@, player, channel),
{
    let mut i: usize = 0;
    while i < links.len()
        invariant
            i <= links@.len(),
            forall|k: int| 0 <= k < i ==> !(#[trigger] links@[k].0 == player && links@[k].1 == channel),
        decreases links@.len() - i,
    {
        if links[i].0 == player && links[i].1 == channel {
            return true;
        }
        i = i + 1;
    }
    false
}

/// Whether Loom holds an output link for this channel.
fn holds_output_link(links: &Vec<(Channel, u32)>, channel: Channel) -> (held: bool)
    ensures
        held == has_output_link(links@, channel),
{
    let mut i: usize = 0;
    while i < links.len()
        invariant
            i <= links@.len(),
            forall|k: int| 0 <= k < i ==> !(#[trigger] links@[k].0 == channel),
        decreases links@.len() - i,
    {
        if links[i].0 == channel {
            return true;
        }
        i = i + 1;
    }
    false
}

/// A property read as an unsigned 32-bit number, when it is one.
fn parse_u32_prop(value: &Option<String>) -> (n: Option<u32>)
    ensures
        n == prop_u32(opt_chars(*value)),
{
    match value {
        Some(text) => match parse_unsigned_decimal(text.as_str(), 0xffff_ffffu64) {
            Some(v) => Some(v as u32),
            None => None,
        },
        None => None,
    }
}

/// The direction a `port.direction` value names.
fn parse_direction(value: &Option<String>) -> (direction: Option<PortDirection>)
    ensures
        direction == direction_of(opt_chars(*value)),
{
    match value {
        Some(text) => if str_eq(text.as_str(), "in") {
            Some(PortDirection::Input)
        } else if str_eq(text.as_str(), "out") {
            Some(PortDirection::Output)
        } else {
            None
        },
        None => None,
    }
}

/// The channel an `audio.channel` value names.
fn parse_channel(value: &Option<String>) -> (channel: Option<Channel>)
    ensures
        channel == channel_prop(opt_chars(*value)),
{
    match value {
        Some(text) => Channel::parse(text.as_str()),
        None => None,
    }
}

/// What a global object adds to the graph.
enum ParsedEntry {
    Node(Node),
    Port(Port),
    Link(ExistingLink),
}

/// The abstract content of a parsed entry.
spec fn parsed_view(e: ParsedEntry) -> Entry {
    match e {
        ParsedEntry::Node(n) => Entry::Node(n@),
        ParsedEntry::Port(p) => Entry::Port(p),
        ParsedEntry::Link(l) => Entry::Link(l),
    }
}

/// Reads what a global object adds to the graph; see `global_entry`.
fn parse_global(object: &GlobalObject) -> (entry: Option<ParsedEntry>)
    ensures
        match global_entry(object.id, object.object_type, props_view(object.props)) {
            Some(e) => entry matches Some(p) && parsed_view(p) == e,
            None => entry is None,
        },
{
    let props = match &object.props {
        Some(p) => p,
        None => {
            return None;
        },
    };
    match object.object_type {
        ObjectType::Node => {
            let name = match &props.node_name {
                Some(n) => n.clone(),
                None => {
                    return None;
                },
            };
            let media_class = match &props.media_class {
                Some(c) => c.clone(),
                None => String::new(),
            };
            let priority = match parse_u32_prop(&props.priority_session) {
                Some(n) => n,
                None => 0,
            };
            let node = Node { id: object.id, name, media_class, priority };
            Some(ParsedEntry::Node(node))
        },
        ObjectType::Port => {
            let node_id = parse_u32_prop(&props.node_id);
            let direction = parse_direction(&props.port_direction);
            let channel = parse_channel(&props.audio_channel);
            match (node_id, direction, channel) {
                (Some(node_id), Some(direction), Some(channel)) => Some(
                    ParsedEntry::Port(Port { id: object.id, node_id, direction, channel }),
                ),
                _ => None,
            }
        },
        ObjectType::Link => {
            let output_node = parse_u32_prop(&props.link_output_node);
            let input_node = parse_u32_prop(&props.link_input_node);
            let output_port = parse_u32_prop(&props.link_output_port);
            let input_port = parse_u32_prop(&props.link_input_port);
            match (output_node, input_node, output_port, input_port) {
                (Some(output_node), Some(input_node), Some(output_port), Some(input_port)) => Some(
                    ParsedEntry::Link(
                        ExistingLink {
                            id: object.id,
                            output_node,
                            output_port,
                            input_node,
                            input_port,
                        },
                    ),
                ),
                _ => None,
            }
        },
        _ => None,
    }
}

/// Whether a global object is the session's `default` metadata.
pub fn is_default_metadata(object: &GlobalObject) -> (default: bool)
    ensures
        default == is_default_metadata_spec(object.object_type, props_view(object.props)),
{
    if object.object_type != ObjectType::Metadata {
        return false;
    }
    match &object.props {
        Some(p) => match &p.metadata_name {
            Some(name) => str_eq(name.as_str(), "default"),
            None => false,
        },
        None => false,
    }
}

/// A field-by-field copy of a node.
fn copy_node(node: &Node) -> (copy: Node)
    ensures
        copy@ == node@,
{
    Node {
        id: node.id,
        name: node.name.clone(),
        media_class: node.media_class.clone(),
        priority: node.priority,
    }
}

/// Records a node; see `upsert_node`.
fn upsert_node_vec(nodes: &mut Vec<Node>, node: Node)
    ensures
        nodes_view(final(nodes)@) == upsert_node(nodes_view(old(nodes)@), node@),
{
    let ghost before = nodes_view(nodes@);
    let mut found = false;
    let mut i: usize = 0;
    while i < nodes.len()
        invariant
            i <= nodes@.len(),
            nodes@.len() == before.len(),
            before == nodes_view(old(nodes)@),
            forall|k: int|
                0 <= k < nodes@.len() ==> #[trigger] nodes@[k]@ == (if k < i && before[k].id
                    == node.id {
                    node@
                } else {
                    before[k]
                }),
            found == (exists|k: int| 0 <= k < i && #[trigger] before[k].id == node.id),
        decreases nodes@.len() - i,
    {
        assert(nodes@[i as int]@ == before[i as int]);
        if nodes[i].id == node.id {
            assert(before[i as int].id == node.id);
            nodes.set(i, copy_node(&node));
            found = true;
        }
        i = i + 1;
    }
    if !found {
        nodes.push(node);
        assert(nodes_view(nodes@) =~= upsert_node(before, node@));
    } else {
        assert(has_node_id(before, node.id));
        assert(nodes_view(nodes@) =~= upsert_node(before, node@));
    }
}

/// Records a port; see `upsert_port`.
fn upsert_port_vec(ports: &mut Vec<Port>, port: Port)
    ensures
        final(ports)@ == upsert_port(old(ports)@, port),
{
    let ghost before = ports@;
    let mut found = false;
    let mut i: usize = 0;
    while i < ports.len()
        invariant
            i <= ports@.len(),
            ports@.len() == before.len(),
            before == old(ports)@,
            forall|k: int|
                0 <= k < ports@.len() ==> #[trigger] ports@[k] == (if k < i && before[k].id
                    == port.id {
                    port
                } else {
                    before[k]
                }),
            found == (exists|k: int| 0 <= k < i && #[trigger] before[k].id == port.id),
        decreases ports@.len() - i,
    {
        if ports[i].id == port.id {
            ports.set(i, port);
            found = true;
        }
        i = i + 1;
    }
    if !found {
        ports.push(port);
    } else {
        assert(has_port_id(before, port.id));
    }
    assert(ports@ =~= upsert_port(before, port));
}

/// Records a link; see `upsert_link`.
fn upsert_link_vec(links: &mut Vec<ExistingLink>, link: ExistingLink)
    ensures
        final(links)@ == upsert_link(old(links)@, link),
{
    let ghost before = links@;
    let mut found = false;
    let mut i: usize = 0;
    while i < links.len()
        invariant
            i <= links@.len(),
            links@.len() == before.len(),
            before == old(links)@,
            forall|k: int|
                0 <= k < links@.len() ==> #[trigger] links@[k] == (if k < i && before[k].id
                    == link.id {
                    link
                } else {
                    before[k]
                }),
            found == (exists|k: int| 0 <= k < i && #[trigger] before[k].id == link.id),
        decreases links@.len() - i,
    {
        if links[i].id == link.id {
            links.set(i, link);
            found = true;
        }
        i = i + 1;
    }
    if !found {
        links.push(link);
    } else {
        assert(has_link_id(before, link.id));
    }
    assert(links@ =~= upsert_link(before, link));
}

/// The nodes other than `id`.
fn nodes_without_vec(nodes: &Vec<Node>, id: u32) -> (kept: Vec<Node>)
    ensures
        nodes_view(kept@) == nodes_without(nodes_view(nodes@), id),
{
    let ghost nv = nodes_view(nodes@);
    let mut kept: Vec<Node> = Vec::new();
    let mut i: usize = 0;
    while i < nodes.len()
        invariant
            nv == nodes_view(nodes@),
            i <= nodes@.len(),
            nodes_view(kept@) == nodes_without(nv.take(i as int), id),
        decreases nodes@.len() - i,
    {
        assert(nv.take(i + 1).drop_last() =~= nv.take(i as int));
        assert(nv.take(i + 1).last() == nodes@[i as int]@);
        if nodes[i].id != id {
            let ghost prev = kept@;
            kept.push(copy_node(&nodes[i]));
            assert(nodes_view(kept@) =~= nodes_view(prev).push(nodes@[i as int]@));
        }
        i = i + 1;
    }
    assert(nv.take(nodes@.len() as int) =~= nv);
    kept
}

/// The ports other than `id`.
fn ports_without_vec(ports: &Vec<Port>, id: u32) -> (kept: Vec<Port>)
    ensures
        kept@ == ports_without(ports@, id),
{
    let mut kept: Vec<Port> = Vec::new();
    let mut i: usize = 0;
    while i < ports.len()
        invariant
            i <= ports@.len(),
            kept@ == ports_without(ports@.take(i as int), id),
        decreases ports@.len() - i,
    {
        assert(ports@.take(i + 1).drop_last() =~= ports@.take(i as int));
        if ports[i].id != id {
            kept.push(ports[i]);
        }
        i = i + 1;
    }
    assert(ports@.take(ports@.len() as int) =~= ports@);
    kept
}

/// The links other than `id`.
fn links_without_vec(links: &Vec<ExistingLink>, id: u32) -> (kept: Vec<ExistingLink>)
    ensures
        kept@ == links_without(links@, id),
{
    let mut kept: Vec<ExistingLink> = Vec::new();
    let mut i: usize = 0;
    while i < links.len()
        invariant
            i <= links@.len(),
            kept@ == links_without(links@.take(i as int), id),
        decreases links@.len() - i,
    {
        assert(links@.take(i + 1).drop_last() =~= links@.take(i as int));
        if links[i].id != id {
            kept.push(links[i]);
        }
        i = i + 1;
    }
    assert(links@.take(links@.len() as int) =~= links@);
    kept
}

/// Whether a held player link is dropped by a removal.
fn is_dropped(e: (u32, Channel, u32), which: PlayerLinkFilter) -> (dropped: bool)
    ensures
        dropped == player_link_dropped(e, which),
{
    match which {
        PlayerLinkFilter::Proxy(id) => e.2 == id,
        PlayerLinkFilter::Player(player) => e.0 == player,
        PlayerLinkFilter::Key(player, channel) => e.0 == player && e.1 == channel,
    }
}

/// Splits the held player links into those a removal keeps and the
/// releases of those it drops.
fn drop_player_links(links: &Vec<(u32, Channel, u32)>, which: PlayerLinkFilter) -> (result: (
    Vec<(u32, Channel, u32)>,
    Vec<Action>,
))
    ensures
        result.0@ == player_links_kept(links@, which),
        actions_view(result.1@) == player_link_releases(links@, which),
{
    let mut kept: Vec<(u32, Channel, u32)> = Vec::new();
    let mut released: Vec<Action> = Vec::new();
    let mut i: usize = 0;
    while i < links.len()
        invariant
            i <= links@.len(),
            kept@ == player_links_kept(links@.take(i as int), which),
            actions_view(released@) == player_link_releases(links@.take(i as int), which),
        decreases links@.len() - i,
    {
        assert(links@.take(i + 1).drop_last() =~= links@.take(i as int));
        assert(links@.take(i + 1).last() == links@[i as int]);
        let e = links[i];
        if is_dropped(e, which) {
            proof {
                lemma_actions_push(released@, Action::ReleaseLink(LinkPurpose::Player(e.0, e.1)));
            }
            released.push(Action::ReleaseLink(LinkPurpose::Player(e.0, e.1)));
        } else {
            kept.push(e);
        }
        i = i + 1;
    }
    assert(links@.take(links@.len() as int) =~= links@);
    (kept, released)
}

/// Splits the held output links into those whose proxy is not `id` and the
/// releases of those whose proxy is.
fn drop_output_links(links: &Vec<(Channel, u32)>, id: u32) -> (result: (
    Vec<(Channel, u32)>,
    Vec<Action>,
))
    ensures
        result.0@ == output_links_kept(links@, id),
        actions_view(result.1@) == output_link_releases(links@, id),
{
    let mut kept: Vec<(Channel, u32)> = Vec::new();
    let mut released: Vec<Action> = Vec::new();
    let mut i: usize = 0;
    while i < links.len()
        invariant
            i <= links@.len(),
            kept@ == output_links_kept(links@.take(i as int), id),
            actions_view(released@) == output_link_releases(links@.take(i as int), id),
        decreases links@.len() - i,
    {
        assert(links@.take(i + 1).drop_last() =~= links@.take(i as int));
        assert(links@.take(i + 1).last() == links@[i as int]);
        let e = links[i];
        if e.1 == id {
            proof {
                lemma_actions_push(released@, Action::ReleaseLink(LinkPurpose::Output(e.0)));
            }
            released.push(Action::ReleaseLink(LinkPurpose::Output(e.0)));
        } else {
            kept.push(e);
        }
        i = i + 1;
    }
    assert(links@.take(links@.len() as int) =~= links@);
    (kept, released)
}

/// The held output links for channels other than `channel`.
fn output_links_other_vec(links: &Vec<(Channel, u32)>, channel: Channel) -> (kept: Vec<(Channel, u32)>)
    ensures
        kept@ == output_links_for_other(links@, channel),
{
    let mut kept: Vec<(Channel, u32)> = Vec::new();
    let mut i: usize = 0;
    while i < links.len()
        invariant
            i <= links@.len(),
            kept@ == output_links_for_other(links@.take(i as int), channel),
        decreases links@.len() - i,
    {
        assert(links@.take(i + 1).drop_last() =~= links@.take(i as int));
        if links[i].0 != channel {
            kept.push(links[i]);
        }
        i = i + 1;
    }
    assert(links@.take(links@.len() as int) =~= links@);
    kept
}

/// The first port with this id.
fn find_port_by_id(ports: &Vec<Port>, id: u32) -> (port: Option<Port>)
    ensures
        port == port_with_id(ports@, id),
{
    let mut i: usize = 0;
    assert(ports@.subrange(0, ports@.len() as int) =~= ports@);
    while i < ports.len()
        invariant
            i <= ports@.len(),
            port_with_id(ports@, id) == port_with_id(ports@.subrange(i as int, ports@.len() as int), id),
        decreases ports@.len() - i,
    {
        assert(ports@.subrange(i as int, ports@.len() as int).drop_first() =~= ports@.subrange(
            i + 1,
            ports@.len() as int,
        ));
        if ports[i].id == id {
            return Some(ports[i]);
        }
        i = i + 1;
    }
    None
}

/// Whether some node has this id.
fn node_id_present(nodes: &Vec<Node>, id: u32) -> (present: bool)
    ensures
        present == has_node_id(nodes_view(nodes@), id),
{
    let ghost nv = nodes_view(nodes@);
    let mut i: usize = 0;
    while i < nodes.len()
        invariant
            nv == nodes_view(nodes@),
            nv.len() == nodes@.len(),
            i <= nodes@.len(),
            forall|k: int| 0 <= k < i ==> #[trigger] nv[k].id != id,
        decreases nodes@.len() - i,
    {
        assert(nv[i as int] == nodes@[i as int]@);
        if nodes[i].id == id {
            assert(nv[i as int].id == id);
            return true;
        }
        i = i + 1;
    }
    false
}

/// Whether some node with this id is the filter.
fn filter_id_present(nodes: &Vec<Node>, id: u32) -> (present: bool)
    ensures
        present == (exists|i: int|
            0 <= i < nodes_view(nodes@).len() && #[trigger] nodes_view(nodes@)[i].id == id
                && is_filter_node(nodes_view(nodes@)[i])),
{
    let ghost nv = nodes_view(nodes@);
    let mut i: usize = 0;
    while i < nodes.len()
        invariant
            nv == nodes_view(nodes@),
            nv.len() == nodes@.len(),
            i <= nodes@.len(),
            forall|k: int| 0 <= k < i ==> !(#[trigger] nv[k].id == id && is_filter_node(nv[k])),
        decreases nodes@.len() - i,
    {
        assert(nv[i as int] == nodes@[i as int]@);
        if nodes[i].id == id && nodes[i].is_filter() {
            assert(nv[i as int].id == id && is_filter_node(nv[i as int]));
            return true;
        }
        i = i + 1;
    }
    false
}

/// Whether some link has this id.
fn link_id_present(links: &Vec<ExistingLink>, id: u32) -> (present: bool)
    ensures
        present == has_link_id(links@, id),
{
    let mut i: usize = 0;
    while i < links.len()
        invariant
            i <= links@.len(),
            forall|k: int| 0 <= k < i ==> #[trigger] links@[k].id != id,
        decreases links@.len() - i,
    {
        if links[i].id == id {
            assert(links@[i as int].id == id);
            return true;
        }
        i = i + 1;
    }
    false
}

/// Appends `more` to `actions`.
fn append_actions(actions: &mut Vec<Action>, more: Vec<Action>)
    ensures
        actions_view(final(actions)@) == actions_view(old(actions)@) + actions_view(more@),
{
    let ghost added = more@;
    let mut more = more;
    actions.append(&mut more);
    assert(actions_view(actions@) =~= actions_view(old(actions)@) + actions_view(added));
}

/// A copy of an optional string.
fn clone_opt(s: &Option<String>) -> (copy: Option<String>)
    ensures
        opt_chars(copy) == opt_chars(*s),
{
    match s {
        Some(t) => Some(t.clone()),
        None => None,
    }
}

/// Whether two optional strings hold the same text.
fn opt_eq(a: &Option<String>, b: &Option<String>) -> (equal: bool)
    ensures
        equal == (opt_chars(*a) == opt_chars(*b)),
{
    match (a, b) {
        (Some(x), Some(y)) => *x == *y,
        (None, None) => true,
        _ => false,
    }
}

/// The metadata value that names a sink: `{"name":"<name>"}`.
pub fn name_value_string(name: &String) -> (value: String)
    ensures
        value@ == name_value(name@),
{
    let mut value = String::from_str("{\"name\":\"");
    value.append(name.as_str());
    value.append("\"}");
    proof {
        reveal_strlit("{\"name\":\"");
        reveal_strlit("\"}");
    }
    assert(value@ =~= name_value(name@));
    value
}

impl State {
    /// Nothing of the graph is known yet.
    pub fn new() -> (state: Self)
        ensures
            state@ == initial_view(),
    {
        let state = State {
            nodes: Vec::new(),
            ports: Vec::new(),
            links: Vec::new(),
            metadata: None,
            default_sink_name: None,
            default_sink_value: None,
            saved_sink_name: None,
            saved_sink_value: None,
            using_fallback_sink: false,
            filter_is_default: false,
            output_links: Vec::new(),
            player_links: Vec::new(),
            linked_sink: None,
            shutting_down: false,
            shutdown_links_created: false,
        };
        assert(state@ =~= initial_view());
        state
    }

    /// Forgets the output links; see `clear_output_links_spec`.
    fn clear_output_links(&mut self) -> (actions: Vec<Action>)
        ensures
            final(self)@ == clear_output_links_spec(old(self)@).0,
            actions_view(actions@) == clear_output_links_spec(old(self)@).1,
    {
        let mut actions: Vec<Action> = Vec::new();
        let mut i: usize = 0;
        while i < self.output_links.len()
            invariant
                i <= self.output_links@.len(),
                self.output_links@ == old(self).output_links@,
                actions_view(actions@) =~= self.output_links@.take(i as int).map_values(
                    |e: (Channel, u32)| release_output_link(e),
                ),
            decreases self.output_links@.len() - i,
        {
            let channel = self.output_links[i].0;
            proof {
                lemma_actions_push(actions@, Action::ReleaseLink(LinkPurpose::Output(channel)));
            }
            actions.push(Action::ReleaseLink(LinkPurpose::Output(channel)));
            assert(self.output_links@.take(i + 1) =~= self.output_links@.take(i as int).push(
                self.output_links@[i as int],
            ));
            assert(self.output_links@.take(i + 1).map_values(
                |e: (Channel, u32)| release_output_link(e),
            ) =~= self.output_links@.take(i as int).map_values(
                |e: (Channel, u32)| release_output_link(e),
            ).push(release_output_link(self.output_links@[i as int])));
            i = i + 1;
        }
        assert(self.output_links@.take(i as int) =~= self.output_links@);
        self.output_links = Vec::new();
        self.linked_sink = None;
        assert(self@ =~= clear_output_links_spec(old(self)@).0);
        actions
    }

    /// Points the session default back at the target device while the
    /// filter is the default; see `restore_default_spec`.
    fn restore_default_to_earlier_sink(&self) -> (actions: Vec<Action>)
        ensures
            actions_view(actions@) == restore_default_spec(self@),
    {
        let mut actions: Vec<Action> = Vec::new();
        if self.filter_is_default && self.metadata.is_some() {
            if let Some(value) = &self.default_sink_value {
                actions.push(Action::SetMetadata(MetadataKey::DefaultSink, value.clone()));
            }
        }
        assert(actions_view(actions@) =~= restore_default_spec(self@));
        actions
    }

    /// Remembers the current target device; see `save_target_sink_spec`.
    fn save_target_sink(&mut self) -> (actions: Vec<Action>)
        ensures
            final(self)@ == save_target_sink_spec(old(self)@).0,
            actions_view(actions@) == save_target_sink_spec(old(self)@).1,
    {
        let mut actions: Vec<Action> = Vec::new();
        if self.metadata.is_none() || self.default_sink_value.is_none() {
            assert(actions_view(actions@) =~= Seq::<ActionView>::empty());
            return actions;
        }
        if opt_eq(&self.saved_sink_value, &self.default_sink_value) {
            assert(actions_view(actions@) =~= Seq::<ActionView>::empty());
            return actions;
        }
        self.saved_sink_name = clone_opt(&self.default_sink_name);
        self.saved_sink_value = clone_opt(&self.default_sink_value);
        let value = match &self.default_sink_value {
            Some(v) => v.clone(),
            None => String::new(),
        };
        actions.push(Action::SetMetadata(MetadataKey::TargetSink, value));
        assert(self@ =~= save_target_sink_spec(old(self)@).0);
        assert(actions_view(actions@) =~= save_target_sink_spec(old(self)@).1);
        actions
    }

    /// The link, if any, that one channel of a player needs; see
    /// `player_channel_plan`.
    fn plan_player_channel(&self, filter: u32, player: u32, channel: Channel) -> (actions: Vec<
        Action,
    >)
        ensures
            actions_view(actions@) == player_channel_plan(self@, filter, player, channel),
    {
        let output = match find_port(&self.ports, player, PortDirection::Output, channel) {
            Some(p) => Some(p),
            None => find_port(&self.ports, player, PortDirection::Output, Channel::Mono),
        };
        let input = find_port(&self.ports, filter, PortDirection::Input, channel);
        let mut actions: Vec<Action> = Vec::new();
        match (output, input) {
            (Some(o), Some(i)) => {
                if !holds_player_link(&self.player_links, player, channel) && !has_link(
                    &self.links,
                    o.id,
                    i.id,
                ) {
                    actions.push(
                        Action::CreateLink {
                            purpose: LinkPurpose::Player(player, channel),
                            output: o,
                            input: i,
                            passive: false,
                            linger: false,
                        },
                    );
                }
            },
            _ => {},
        }
        assert(actions_view(actions@) =~= player_channel_plan(self@, filter, player, channel));
        actions
    }

    /// Whether a link lets a player bypass the filter; see `is_bypass_link`.
    fn is_bypass(&self, filter: u32, players: &Vec<u32>, link: ExistingLink) -> (bypass: bool)
        ensures
            bypass == is_bypass_link(self@, filter, players@, link),
    {
        contains_id(players, link.output_node) && count_links_into(
            &self.links,
            link.output_node,
            filter,
        ) >= 2 && link.input_node != filter && is_sink_node(&self.nodes, link.input_node)
    }

    /// Routes every player through the filter; see `route_players_spec`.
    fn route_players(&mut self) -> (actions: Vec<Action>)
        ensures
            final(self)@ == route_players_spec(old(self)@).0,
            actions_view(actions@) == route_players_spec(old(self)@).1,
    {
        let mut actions: Vec<Action> = Vec::new();
        assert(actions_view(actions@) =~= Seq::<ActionView>::empty());
        let fi = match find_filter(&self.nodes) {
            Some(i) => i,
            None => {
                return actions;
            },
        };
        let filter = self.nodes[fi].id;
        let players = collect_player_ids(&self.nodes);
        let ghost s0 = self@;
        let mut i: usize = 0;
        while i < players.len()
            invariant
                self@ == s0,
                i <= players@.len(),
                actions_view(actions@) == player_plan(s0, filter, players@.take(i as int)),
            decreases players@.len() - i,
        {
            let player = players[i];
            let left = self.plan_player_channel(filter, player, Channel::Left);
            append_actions(&mut actions, left);
            let right = self.plan_player_channel(filter, player, Channel::Right);
            append_actions(&mut actions, right);
            assert(players@.take(i + 1).drop_last() =~= players@.take(i as int));
            assert(players@.take(i + 1).last() == player);
            i = i + 1;
        }
        assert(players@.take(i as int) =~= players@);
        let mut kept: Vec<ExistingLink> = Vec::new();
        let mut j: usize = 0;
        assert(s0.links.take(0) =~= Seq::<ExistingLink>::empty());
        assert(player_plan(s0, filter, players@) + bypass_destroys(
            s0,
            filter,
            players@,
            s0.links.take(0),
        ) =~= player_plan(s0, filter, players@));
        while j < self.links.len()
            invariant
                self@ == s0,
                j <= s0.links.len(),
                kept@ == links_kept(s0, filter, players@, s0.links.take(j as int)),
                actions_view(actions@) == player_plan(s0, filter, players@) + bypass_destroys(
                    s0,
                    filter,
                    players@,
                    s0.links.take(j as int),
                ),
            decreases s0.links.len() - j,
        {
            let link = self.links[j];
            assert(s0.links.take(j + 1).drop_last() =~= s0.links.take(j as int));
            assert(s0.links.take(j + 1).last() == link);
            if self.is_bypass(filter, &players, link) {
                proof {
                    lemma_actions_push(actions@, Action::DestroyGlobal(link.id));
                }
                actions.push(Action::DestroyGlobal(link.id));
            } else {
                kept.push(link);
            }
            j = j + 1;
        }
        assert(s0.links.take(j as int) =~= s0.links);
        self.links = kept;
        assert(self@ =~= route_players_spec(s0).0);
        actions
    }

    /// The output link, if any, that one channel needs; see
    /// `output_channel_plan`.
    fn plan_output_channel(&self, filter: u32, sink: u32, channel: Channel) -> (actions: Vec<
        Action,
    >)
        ensures
            actions_view(actions@) == output_channel_plan(self@, filter, sink, channel),
    {
        let mut actions: Vec<Action> = Vec::new();
        if !holds_output_link(&self.output_links, channel) {
            let output = find_port(&self.ports, filter, PortDirection::Output, channel);
            let input = find_port(&self.ports, sink, PortDirection::Input, channel);
            match (output, input) {
                (Some(o), Some(i)) => {
                    actions.push(
                        Action::CreateLink {
                            purpose: LinkPurpose::Output(channel),
                            output: o,
                            input: i,
                            passive: true,
                            linger: false,
                        },
                    );
                },
                _ => {},
            }
        }
        assert(actions_view(actions@) =~= output_channel_plan(self@, filter, sink, channel));
        actions
    }

    /// Connects the filter to the target device; see `route_output_spec`.
    fn route_output(&mut self) -> (actions: Vec<Action>)
        ensures
            final(self)@ == route_output_spec(old(self)@).0,
            actions_view(actions@) == route_output_spec(old(self)@).1,
    {
        let none: Vec<Action> = Vec::new();
        assert(actions_view(none@) =~= Seq::<ActionView>::empty());
        let fi = match find_filter(&self.nodes) {
            Some(i) => i,
            None => {
                return none;
            },
        };
        let filter = self.nodes[fi].id;
        let si = match &self.default_sink_name {
            None => {
                return none;
            },
            Some(name) => match find_sink_named(&self.nodes, name) {
                Some(i) => i,
                None => {
                    return none;
                },
            },
        };
        let sink = self.nodes[si].id;
        let mut actions: Vec<Action>;
        if self.linked_sink != Some(sink) {
            actions = self.clear_output_links();
            self.linked_sink = Some(sink);
        } else {
            actions = Vec::new();
            assert(actions_view(actions@) =~= Seq::<ActionView>::empty());
        }
        let left = self.plan_output_channel(filter, sink, Channel::Left);
        append_actions(&mut actions, left);
        let right = self.plan_output_channel(filter, sink, Channel::Right);
        append_actions(&mut actions, right);
        assert(self@ =~= route_output_spec(old(self)@).0);
        actions
    }

    /// Brings the links in line with the graph unless Loom is shutting
    /// down; see `reconcile_spec`.
    fn reconcile(&mut self) -> (actions: Vec<Action>)
        requires
            old(self)@.wf(),
        ensures
            final(self)@ == reconcile_spec(old(self)@).0,
            actions_view(actions@) == reconcile_spec(old(self)@).1,
            final(self)@.wf(),
    {
        if self.shutting_down {
            let none: Vec<Action> = Vec::new();
            assert(actions_view(none@) =~= Seq::<ActionView>::empty());
            return none;
        }
        let mut actions = self.recover_target_sink();
        let players = self.route_players();
        append_actions(&mut actions, players);
        let output = self.route_output();
        append_actions(&mut actions, output);
        actions
    }

    /// Records an object the registry announced and reconciles; an object
    /// that adds nothing to the graph changes nothing.
    pub fn add_global(&mut self, object: &GlobalObject) -> (actions: Vec<Action>)
        requires
            old(self)@.wf(),
        ensures
            final(self)@ == add_global_spec(
                old(self)@,
                object.id,
                object.object_type,
                props_view(object.props),
            ).0,
            actions_view(actions@) == add_global_spec(
                old(self)@,
                object.id,
                object.object_type,
                props_view(object.props),
            ).1,
            final(self)@.wf(),
    {
        match parse_global(object) {
            None => {
                let none: Vec<Action> = Vec::new();
                assert(actions_view(none@) =~= Seq::<ActionView>::empty());
                none
            },
            Some(entry) => {
                match entry {
                    ParsedEntry::Node(n) => {
                        let ghost nv = n@;
                        upsert_node_vec(&mut self.nodes, n);
                        assert(self@ =~= insert_entry(old(self)@, Entry::Node(nv)));
                    },
                    ParsedEntry::Port(p) => {
                        upsert_port_vec(&mut self.ports, p);
                        assert(self@ =~= insert_entry(old(self)@, Entry::Port(p)));
                    },
                    ParsedEntry::Link(l) => {
                        upsert_link_vec(&mut self.links, l);
                        assert(self@ =~= insert_entry(old(self)@, Entry::Link(l)));
                    },
                }
                self.reconcile()
            },
        }
    }

    /// Forgets a removed link together with the links Loom holds through
    /// it; see `remove_link_step`.
    fn remove_link(&mut self, id: u32) -> (actions: Vec<Action>)
        ensures
            final(self)@ == remove_link_step(old(self)@, id).0,
            actions_view(actions@) == remove_link_step(old(self)@, id).1,
    {
        if !link_id_present(&self.links, id) {
            let none: Vec<Action> = Vec::new();
            assert(actions_view(none@) =~= Seq::<ActionView>::empty());
            return none;
        }
        self.links = links_without_vec(&self.links, id);
        let (players, mut actions) = drop_player_links(&self.player_links, PlayerLinkFilter::Proxy(id));
        self.player_links = players;
        let (outputs, released) = drop_output_links(&self.output_links, id);
        self.output_links = outputs;
        append_actions(&mut actions, released);
        assert(self@ =~= remove_link_step(old(self)@, id).0);
        actions
    }

    /// Forgets a removed node; see `remove_node_step`.
    fn remove_node(&mut self, id: u32) -> (actions: Vec<Action>)
        ensures
            final(self)@ == remove_node_step(old(self)@, id).0,
            actions_view(actions@) == remove_node_step(old(self)@, id).1,
    {
        if !node_id_present(&self.nodes, id) {
            let none: Vec<Action> = Vec::new();
            assert(actions_view(none@) =~= Seq::<ActionView>::empty());
            return none;
        }
        let removed_filter = filter_id_present(&self.nodes, id);
        self.nodes = nodes_without_vec(&self.nodes, id);
        let (players, mut actions) = drop_player_links(&self.player_links, PlayerLinkFilter::Player(id));
        self.player_links = players;
        if removed_filter || self.linked_sink == Some(id) {
            let cleared = self.clear_output_links();
            append_actions(&mut actions, cleared);
        }
        actions
    }

    /// Forgets a removed port; see `remove_port_step`.
    fn remove_port(&mut self, id: u32) -> (actions: Vec<Action>)
        ensures
            final(self)@ == remove_port_step(old(self)@, id).0,
            actions_view(actions@) == remove_port_step(old(self)@, id).1,
    {
        let port = match find_port_by_id(&self.ports, id) {
            Some(p) => p,
            None => {
                let none: Vec<Action> = Vec::new();
                assert(actions_view(none@) =~= Seq::<ActionView>::empty());
                return none;
            },
        };
        self.ports = ports_without_vec(&self.ports, id);
        let filter_owns = match find_filter(&self.nodes) {
            Some(i) => self.nodes[i].id == port.node_id,
            None => false,
        };
        if filter_owns || self.linked_sink == Some(port.node_id) {
            self.clear_output_links()
        } else {
            let (players, actions) = drop_player_links(
                &self.player_links,
                PlayerLinkFilter::Key(port.node_id, port.channel),
            );
            self.player_links = players;
            actions
        }
    }

    /// Forgets an object the registry removed, drops what depended on it,
    /// and reconciles.
    pub fn remove_global(&mut self, id: u32) -> (actions: Vec<Action>)
        requires
            old(self)@.wf(),
        ensures
            final(self)@ == remove_global_spec(old(self)@, id).0,
            actions_view(actions@) == remove_global_spec(old(self)@, id).1,
            final(self)@.wf(),
    {
        let mut actions = self.remove_link(id);
        if self.metadata == Some(id) {
            self.metadata = None;
            self.filter_is_default = false;
        }
        let nodes = self.remove_node(id);
        append_actions(&mut actions, nodes);
        let ports = self.remove_port(id);
        append_actions(&mut actions, ports);
        let routed = self.reconcile();
        append_actions(&mut actions, routed);
        assert(actions_view(actions@) =~= remove_global_spec(old(self)@, id).1);
        actions
    }

    /// The session default changed to `value` (a metadata value such as
    /// `{"name":"alsa_output"}`, or none).
    pub fn set_default_sink(&mut self, value: Option<&str>) -> (actions: Vec<Action>)
        requires
            old(self)@.wf(),
        ensures
            final(self)@ == set_default_sink_spec(old(self)@, opt_str(value)).0,
            actions_view(actions@) == set_default_sink_spec(old(self)@, opt_str(value)).1,
            final(self)@.wf(),
    {
        let name = match value {
            Some(v) => default_sink_name(v),
            None => None,
        };
        let is_filter = match &name {
            Some(n) => str_eq(n.as_str(), "loom_virtual_sink"),
            None => false,
        };
        if is_filter {
            self.filter_is_default = true;
            return self.reconcile();
        }
        self.filter_is_default = false;
        self.using_fallback_sink = false;
        let mut actions: Vec<Action>;
        if !opt_eq(&name, &self.default_sink_name) {
            self.default_sink_name = name;
            self.default_sink_value = match value {
                Some(v) => Some(String::from_str(v)),
                None => None,
            };
            actions = self.clear_output_links();
        } else {
            actions = Vec::new();
            assert(actions_view(actions@) =~= Seq::<ActionView>::empty());
        }
        let saved = self.save_target_sink();
        append_actions(&mut actions, saved);
        let routed = self.reconcile();
        append_actions(&mut actions, routed);
        actions
    }

    /// Loom's remembered target changed to `value`.
    pub fn set_saved_sink(&mut self, value: Option<&str>) -> (actions: Vec<Action>)
        requires
            old(self)@.wf(),
        ensures
            final(self)@ == set_saved_sink_spec(old(self)@, opt_str(value)).0,
            actions_view(actions@) == set_saved_sink_spec(old(self)@, opt_str(value)).1,
            final(self)@.wf(),
    {
        let name = match value {
            Some(v) => default_sink_name(v),
            None => None,
        };
        let is_filter = match &name {
            Some(n) => str_eq(n.as_str(), "loom_virtual_sink"),
            None => false,
        };
        if is_filter {
            let none: Vec<Action> = Vec::new();
            assert(actions_view(none@) =~= Seq::<ActionView>::empty());
            return none;
        }
        self.saved_sink_name = name;
        self.saved_sink_value = match value {
            Some(v) => Some(String::from_str(v)),
            None => None,
        };
        self.reconcile()
    }

    /// The session's `default` metadata (global `id`) was bound.
    pub fn metadata_bound(&mut self, id: u32) -> (actions: Vec<Action>)
        requires
            old(self)@.wf(),
        ensures
            final(self)@ == metadata_bound_spec(old(self)@, id).0,
            actions_view(actions@) == metadata_bound_spec(old(self)@, id).1,
            final(self)@.wf(),
    {
        self.metadata = Some(id);
        self.reconcile()
    }

    /// Stops all routing and points the session default back at the target
    /// device; repeated requests are coalesced into the first.
    pub fn prepare_shutdown(&mut self) -> (actions: Vec<Action>)
        requires
            old(self)@.wf(),
        ensures
            final(self)@ == prepare_shutdown_spec(old(self)@).0,
            actions_view(actions@) == prepare_shutdown_spec(old(self)@).1,
            final(self)@.wf(),
    {
        if self.shutting_down {
            let none: Vec<Action> = Vec::new();
            assert(actions_view(none@) =~= Seq::<ActionView>::empty());
            return none;
        }
        self.shutting_down = true;
        self.restore_default_to_earlier_sink()
    }

    /// Links every player straight to the device before Loom leaves, once.
    /// Also gives the number of players, so that the caller can tell when
    /// none of them could be reconnected.
    pub fn finish_shutdown(&mut self) -> (result: (Vec<Action>, usize))
        requires
            old(self)@.wf(),
        ensures
            final(self)@.wf(),
            final(self)@ == finish_shutdown_spec(old(self)@).0,
            actions_view(result.0@) == finish_shutdown_spec(old(self)@).1,
            result.1 == (if old(self)@.shutdown_links_created || shutdown_sink(old(self)@) is None {
                0
            } else {
                player_ids(old(self)@.nodes).len()
            }),
    {
        let mut actions: Vec<Action> = Vec::new();
        if self.shutdown_links_created {
            assert(actions_view(actions@) =~= Seq::<ActionView>::empty());
            return (actions, 0);
        }
        self.shutdown_links_created = true;
        let sink = match self.linked_sink {
            Some(id) => Some(id),
            None => match &self.default_sink_name {
                Some(name) => match find_sink_named(&self.nodes, name) {
                    Some(i) => Some(self.nodes[i].id),
                    None => None,
                },
                None => None,
            },
        };
        let sink = match sink {
            Some(id) => id,
            None => {
                actions.push(Action::TargetUnavailable);
                assert(actions_view(actions@) =~= seq![ActionView::TargetUnavailable]);
                return (actions, 0);
            },
        };
        let players = collect_player_ids(&self.nodes);
        let ghost s0 = old(self)@;
        let mut i: usize = 0;
        assert(actions_view(actions@) =~= Seq::<ActionView>::empty());
        while i < players.len()
            invariant
                self@ == (RoutingView { shutdown_links_created: true, ..s0 }),
                players@ == player_ids(s0.nodes),
                i <= players@.len(),
                actions_view(actions@) == shutdown_plan(s0, sink, players@.take(i as int)),
            decreases players@.len() - i,
        {
            let player = players[i];
            let left = self.plan_shutdown_channel(sink, player, Channel::Left);
            append_actions(&mut actions, left);
            let right = self.plan_shutdown_channel(sink, player, Channel::Right);
            append_actions(&mut actions, right);
            assert(players@.take(i + 1).drop_last() =~= players@.take(i as int));
            assert(players@.take(i + 1).last() == player);
            i = i + 1;
        }
        assert(players@.take(i as int) =~= players@);
        (actions, players.len())
    }

    /// The direct link, if any, that one channel of a player needs at
    /// shutdown; see `shutdown_channel_plan`.
    fn plan_shutdown_channel(&self, sink: u32, player: u32, channel: Channel) -> (actions: Vec<
        Action,
    >)
        ensures
            actions_view(actions@) == shutdown_channel_plan(self@, sink, player, channel),
    {
        let output = match find_port(&self.ports, player, PortDirection::Output, channel) {
            Some(p) => Some(p),
            None => find_port(&self.ports, player, PortDirection::Output, Channel::Mono),
        };
        let input = find_port(&self.ports, sink, PortDirection::Input, channel);
        let mut actions: Vec<Action> = Vec::new();
        match (output, input) {
            (Some(o), Some(i)) => {
                if !has_link(&self.links, o.id, i.id) {
                    actions.push(
                        Action::CreateLink {
                            purpose: LinkPurpose::Shutdown,
                            output: o,
                            input: i,
                            passive: false,
                            linger: true,
                        },
                    );
                }
            },
            _ => {},
        }
        assert(actions_view(actions@) =~= shutdown_channel_plan(self@, sink, player, channel));
        actions
    }

    /// A link Loom asked for was created; `proxy` is the id its proxy
    /// reports. Player and output links are held from now on (replacing
    /// any held for the same purpose); shutdown links are not held here.
    pub fn record_link(&mut self, purpose: LinkPurpose, proxy: u32)
        requires
            old(self)@.wf(),
        ensures
            final(self)@ == record_link_spec(old(self)@, purpose, proxy),
            final(self)@.wf(),
    {
        match purpose {
            LinkPurpose::Player(player, channel) => {
                let (mut kept, _released) = drop_player_links(
                    &self.player_links,
                    PlayerLinkFilter::Key(player, channel),
                );
                kept.push((player, channel, proxy));
                self.player_links = kept;
            },
            LinkPurpose::Output(channel) => {
                let mut kept = output_links_other_vec(&self.output_links, channel);
                kept.push((channel, proxy));
                self.output_links = kept;
            },
            LinkPurpose::Shutdown => {},
        }
        assert(self@ =~= record_link_spec(old(self)@, purpose, proxy));
    }

    /// Picks a target device when the filter has become the session
    /// default; see `recover_target_sink_spec`.
    fn recover_target_sink(&mut self) -> (actions: Vec<Action>)
        requires
            old(self)@.wf(),
        ensures
            final(self)@ == recover_target_sink_spec(old(self)@).0,
            actions_view(actions@) == recover_target_sink_spec(old(self)@).1,
    {
        let none: Vec<Action> = Vec::new();
        assert(actions_view(none@) =~= Seq::<ActionView>::empty());
        if !self.filter_is_default || (self.default_sink_name.is_some()
            && !self.using_fallback_sink) {
            return none;
        }
        let saved = match &self.saved_sink_name {
            Some(name) => find_sink_named(&self.nodes, name),
            None => None,
        };
        let using_fallback = saved.is_none();
        let target = match saved {
            Some(i) => Some(i),
            None => find_fallback_sink(&self.nodes),
        };
        let t = match target {
            Some(t) => t,
            None => {
                return none;
            },
        };
        let target_name = self.nodes[t].name.clone();
        if let Some(current) = &self.default_sink_name {
            if *current == target_name {
                return none;
            }
        }
        let value = if using_fallback {
            name_value_string(&target_name)
        } else {
            match &self.saved_sink_value {
                Some(v) => v.clone(),
                None => String::new(),
            }
        };
        self.default_sink_name = Some(target_name);
        self.default_sink_value = Some(value);
        self.using_fallback_sink = using_fallback;
        let mut actions = self.clear_output_links();
        let more = self.restore_default_to_earlier_sink();
        append_actions(&mut actions, more);
        actions
    }
}

} // verus!
