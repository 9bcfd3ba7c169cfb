use loom::loom::routing::{
    default_sink_name, find_port, has_link, is_default_metadata, name_value_string, Action,
    Channel, ExistingLink, GlobalObject, GlobalProps, LinkPurpose, MetadataKey, Node, ObjectType,
    Port, PortDirection, State,
};

fn props() -> GlobalProps {
    GlobalProps {
        node_name: None,
        media_class: None,
        priority_session: None,
        node_id: None,
        port_direction: None,
        audio_channel: None,
        link_output_node: None,
        link_input_node: None,
        link_output_port: None,
        link_input_port: None,
        metadata_name: None,
    }
}

fn node(id: u32, name: &str, class: &str) -> GlobalObject {
    let mut p = props();
    p.node_name = Some(name.to_string());
    p.media_class = Some(class.to_string());
    GlobalObject { id, object_type: ObjectType::Node, props: Some(p) }
}

fn node_with_priority(id: u32, name: &str, priority: &str) -> GlobalObject {
    let mut object = node(id, name, "Audio/Sink");
    object.props.as_mut().unwrap().priority_session = Some(priority.to_string());
    object
}

fn port(id: u32, node: u32, direction: &str, channel: &str) -> GlobalObject {
    let mut p = props();
    p.node_id = Some(node.to_string());
    p.port_direction = Some(direction.to_string());
    p.audio_channel = Some(channel.to_string());
    GlobalObject { id, object_type: ObjectType::Port, props: Some(p) }
}

fn link(id: u32, out_node: u32, out_port: u32, in_node: u32, in_port: u32) -> GlobalObject {
    let mut p = props();
    p.link_output_node = Some(out_node.to_string());
    p.link_output_port = Some(out_port.to_string());
    p.link_input_node = Some(in_node.to_string());
    p.link_input_port = Some(in_port.to_string());
    GlobalObject { id, object_type: ObjectType::Link, props: Some(p) }
}

fn metadata(id: u32, name: &str) -> GlobalObject {
    let mut p = props();
    p.metadata_name = Some(name.to_string());
    GlobalObject { id, object_type: ObjectType::Metadata, props: Some(p) }
}

const FILTER: u32 = 10;
const SINK: u32 = 20;
const PLAYER: u32 = 30;

fn creates(actions: &[Action]) -> Vec<(LinkPurpose, u32, u32, bool, bool)> {
    actions
        .iter()
        .filter_map(|action| match action {
            Action::CreateLink { purpose, output, input, passive, linger } => {
                Some((*purpose, output.id, input.id, *passive, *linger))
            }
            _ => None,
        })
        .collect()
}

/// The filter, a device and their stereo ports, with the device as default.
fn graph() -> State {
    let mut state = State::new();
    state.add_global(&node(FILTER, "loom_virtual_sink", "Audio/Sink"));
    state.add_global(&node(SINK, "alsa_output", "Audio/Sink"));
    state.add_global(&port(11, FILTER, "in", "FL"));
    state.add_global(&port(12, FILTER, "in", "FR"));
    state.add_global(&port(13, FILTER, "out", "FL"));
    state.add_global(&port(14, FILTER, "out", "FR"));
    state.add_global(&port(21, SINK, "in", "FL"));
    state.add_global(&port(22, SINK, "in", "FR"));
    state
}

#[test]
fn channels_parse_by_pipewire_name() {
    assert_eq!(Channel::parse("FL"), Some(Channel::Left));
    assert_eq!(Channel::parse("FR"), Some(Channel::Right));
    assert_eq!(Channel::parse("MONO"), Some(Channel::Mono));
    assert_eq!(Channel::parse("RL"), None);
    assert_eq!(Channel::parse("fl"), None);
}

#[test]
fn players_are_output_streams() {
    let player = Node {
        id: 1,
        name: "firefox".to_string(),
        media_class: "Stream/Output/Audio".to_string(),
        priority: 0,
    };
    assert!(player.is_player());
    assert!(!player.is_filter());
    let filter = Node {
        id: 2,
        name: "loom_virtual_sink".to_string(),
        media_class: "Audio/Sink".to_string(),
        priority: 0,
    };
    assert!(!filter.is_player());
    assert!(filter.is_filter());
    assert!(filter.is_audio_sink());
}

#[test]
fn sink_names_are_read_from_metadata_values() {
    assert_eq!(default_sink_name("{\"name\":\"alsa_output\"}"), Some("alsa_output".to_string()));
    assert_eq!(default_sink_name("{ \"name\" :  \"hdmi\" }"), Some("hdmi".to_string()));
    assert_eq!(default_sink_name("{\"name\":\"\"}"), Some(String::new()));
    assert_eq!(default_sink_name("{\"name\":alsa}"), None);
    assert_eq!(default_sink_name("{\"nick\":\"alsa\"}"), None);
    assert_eq!(default_sink_name("{\"name\":\"unterminated}"), None);
    assert_eq!(default_sink_name(""), None);
}

#[test]
fn name_values_read_back() {
    let value = name_value_string(&"alsa_output".to_string());
    assert_eq!(value, "{\"name\":\"alsa_output\"}");
    assert_eq!(default_sink_name(&value), Some("alsa_output".to_string()));
}

#[test]
fn ports_and_links_are_found() {
    let ports = vec![
        Port { id: 1, node_id: 5, direction: PortDirection::Output, channel: Channel::Left },
        Port { id: 2, node_id: 5, direction: PortDirection::Input, channel: Channel::Left },
        Port { id: 3, node_id: 5, direction: PortDirection::Output, channel: Channel::Left },
    ];
    assert_eq!(find_port(&ports, 5, PortDirection::Output, Channel::Left).map(|p| p.id), Some(1));
    assert_eq!(find_port(&ports, 5, PortDirection::Input, Channel::Left).map(|p| p.id), Some(2));
    assert_eq!(find_port(&ports, 5, PortDirection::Output, Channel::Right), None);
    assert_eq!(find_port(&ports, 6, PortDirection::Output, Channel::Left), None);
    let links = vec![ExistingLink { id: 9, output_node: 5, output_port: 1, input_node: 6, input_port: 4 }];
    assert!(has_link(&links, 1, 4));
    assert!(!has_link(&links, 4, 1));
}

#[test]
fn only_the_default_metadata_is_bound() {
    assert!(is_default_metadata(&metadata(40, "default")));
    assert!(!is_default_metadata(&metadata(41, "settings")));
    assert!(!is_default_metadata(&node(42, "default", "Audio/Sink")));
    let bare = GlobalObject { id: 43, object_type: ObjectType::Metadata, props: None };
    assert!(!is_default_metadata(&bare));
}

#[test]
fn filter_output_is_linked_to_the_default_device() {
    let mut state = graph();
    let actions = state.set_default_sink(Some("{\"name\":\"alsa_output\"}"));
    assert_eq!(
        creates(&actions),
        vec![
            (LinkPurpose::Output(Channel::Left), 13, 21, true, false),
            (LinkPurpose::Output(Channel::Right), 14, 22, true, false),
        ]
    );
    state.record_link(LinkPurpose::Output(Channel::Left), 100);
    state.record_link(LinkPurpose::Output(Channel::Right), 101);
    let again = state.add_global(&node(50, "usb_output", "Audio/Sink"));
    assert!(creates(&again).is_empty());
}

#[test]
fn players_are_routed_into_the_filter_and_bypass_links_removed() {
    let mut state = graph();
    state.set_default_sink(Some("{\"name\":\"alsa_output\"}"));
    state.record_link(LinkPurpose::Output(Channel::Left), 100);
    state.record_link(LinkPurpose::Output(Channel::Right), 101);
    state.add_global(&node(PLAYER, "mpv", "Stream/Output/Audio"));
    let left = state.add_global(&port(31, PLAYER, "out", "FL"));
    assert_eq!(creates(&left), vec![(LinkPurpose::Player(PLAYER, Channel::Left), 31, 11, false, false)]);
    state.record_link(LinkPurpose::Player(PLAYER, Channel::Left), 102);
    let right = state.add_global(&port(32, PLAYER, "out", "FR"));
    assert_eq!(creates(&right), vec![(LinkPurpose::Player(PLAYER, Channel::Right), 32, 12, false, false)]);
    state.record_link(LinkPurpose::Player(PLAYER, Channel::Right), 103);

    // The session manager had linked the player straight to the device.
    state.add_global(&link(200, PLAYER, 31, SINK, 21));
    state.add_global(&link(201, PLAYER, 31, FILTER, 11));
    let actions = state.add_global(&link(202, PLAYER, 32, FILTER, 12));
    assert!(creates(&actions).is_empty());
    assert!(actions.iter().any(|a| matches!(a, Action::DestroyGlobal(200))));
}

#[test]
fn mono_player_feeds_both_filter_inputs() {
    let mut state = graph();
    state.add_global(&node(PLAYER, "beep", "Stream/Output/Audio"));
    let actions = state.add_global(&port(33, PLAYER, "out", "MONO"));
    assert_eq!(
        creates(&actions),
        vec![
            (LinkPurpose::Player(PLAYER, Channel::Left), 33, 11, false, false),
            (LinkPurpose::Player(PLAYER, Channel::Right), 33, 12, false, false),
        ]
    );
}

#[test]
fn filter_as_default_recovers_the_highest_priority_device() {
    let mut state = graph();
    state.add_global(&node_with_priority(60, "hdmi_output", "900"));
    state.add_global(&node_with_priority(61, "usb_output", "1200"));
    state.add_global(&metadata(40, "default"));
    state.metadata_bound(40);
    let actions = state.set_default_sink(Some("{\"name\":\"loom_virtual_sink\"}"));
    let writes: Vec<(MetadataKey, String)> = actions
        .iter()
        .filter_map(|a| match a {
            Action::SetMetadata(key, value) => Some((*key, value.clone())),
            _ => None,
        })
        .collect();
    assert_eq!(
        writes,
        vec![(MetadataKey::DefaultSink, "{\"name\":\"usb_output\"}".to_string())]
    );
}

#[test]
fn shutdown_points_default_back_and_links_players_to_the_device() {
    let mut state = graph();
    state.add_global(&metadata(40, "default"));
    state.metadata_bound(40);
    let first = state.set_default_sink(Some("{\"name\":\"alsa_output\"}"));
    assert!(first.iter().any(|a| matches!(
        a,
        Action::SetMetadata(MetadataKey::TargetSink, v) if v == "{\"name\":\"alsa_output\"}"
    )));
    state.set_default_sink(Some("{\"name\":\"loom_virtual_sink\"}"));
    state.add_global(&node(PLAYER, "mpv", "Stream/Output/Audio"));
    state.add_global(&port(31, PLAYER, "out", "FL"));
    state.add_global(&port(32, PLAYER, "out", "FR"));

    let prepared = state.prepare_shutdown();
    assert!(prepared.iter().any(|a| matches!(
        a,
        Action::SetMetadata(MetadataKey::DefaultSink, v) if v == "{\"name\":\"alsa_output\"}"
    )));
    assert!(state.prepare_shutdown().is_empty());
    assert!(creates(&state.add_global(&port(34, PLAYER, "out", "FL"))).is_empty());

    let (actions, players) = state.finish_shutdown();
    assert_eq!(players, 1);
    assert_eq!(
        creates(&actions),
        vec![
            (LinkPurpose::Shutdown, 31, 21, false, true),
            (LinkPurpose::Shutdown, 32, 22, false, true),
        ]
    );
    let (again, _) = state.finish_shutdown();
    assert!(again.is_empty());
}

#[test]
fn removing_the_device_drops_output_links() {
    let mut state = graph();
    state.set_default_sink(Some("{\"name\":\"alsa_output\"}"));
    state.record_link(LinkPurpose::Output(Channel::Left), 100);
    state.record_link(LinkPurpose::Output(Channel::Right), 101);
    let actions = state.remove_global(SINK);
    assert!(actions.iter().any(|a| matches!(a, Action::ReleaseLink(LinkPurpose::Output(Channel::Left)))));
    assert!(actions.iter().any(|a| matches!(a, Action::ReleaseLink(LinkPurpose::Output(Channel::Right)))));
    assert!(creates(&actions).is_empty());
}

#[test]
fn sink_names_keep_every_character() {
    assert_eq!(default_sink_name("{\"name\":\"Śaq ♪ out\"}"), Some("Śaq ♪ out".to_string()));
}
