use vstd::prelude::*;
use crate::loom::routing::{
    add_global_spec, bypass_destroys, clear_output_links_spec, default_sink_name_spec,
    filter_node, filter_node_name, find_port_spec, finish_shutdown_spec,
    has_link_id, has_node_id, has_output_link, has_player_link, has_port_id, initial_view,
    is_bypass_link, is_filter_node, links_kept, links_without, metadata_bound_spec, name_key,
    name_value, nodes_without, output_channel_plan, output_links_kept, player_channel_plan,
    player_ids, player_links_kept, player_plan, ports_linked, ports_without,
    prepare_shutdown_spec, reconcile_spec, record_link_spec, recover_target_sink_spec,
    remove_global_spec, remove_link_step, remove_metadata_step, remove_node_step,
    remove_port_step, route_output_spec, route_players_spec, save_target_sink_spec,
    set_default_sink_spec, set_saved_sink_spec, shutdown_channel_plan, shutdown_plan,
    shutdown_sink, sink_named, source_port, audio_sink_class, fallback_sink, player_class,
    ActionView, Channel,
    ExistingLink, GlobalPropsView, LinkPurpose, NodeView, ObjectType, PlayerLinkFilter, Port,
    PortDirection, RoutingView,
};
use crate::text::{find_from, first_non_whitespace, is_unicode_whitespace};

verus! {

/// Shutdown requests coalesce: once Loom has begun shutting down, a further
/// request changes nothing and asks for nothing.
pub proof fn prepare_shutdown_coalesces(s: RoutingView)
    ensures
        prepare_shutdown_spec(prepare_shutdown_spec(s).0) == (prepare_shutdown_spec(s).0, Seq::<ActionView>::empty()),
{
}

/// Players are reconnected to the device at most once: a second attempt
/// changes nothing and asks for nothing.
pub proof fn finish_shutdown_runs_once(s: RoutingView)
    ensures
        finish_shutdown_spec(finish_shutdown_spec(s).0) == (finish_shutdown_spec(s).0, Seq::<ActionView>::empty()),
{
}

/// While Loom shuts down, no change in the graph makes it route anything:
/// reconciling changes nothing and asks for nothing.
pub proof fn no_routing_while_shutting_down(s: RoutingView)
    requires
        s.shutting_down,
    ensures
        reconcile_spec(s) == (s, Seq::<ActionView>::empty()),
{
}

/// Once the link for a channel of a player is recorded, routing never asks
/// for that link again.
pub proof fn recorded_player_link_is_not_requested_again(
    s: RoutingView,
    filter: u32,
    player: u32,
    channel: Channel,
    proxy: u32,
)
    ensures
        player_channel_plan(
            record_link_spec(s, LinkPurpose::Player(player, channel), proxy),
            filter,
            player,
            channel,
        ) == Seq::<ActionView>::empty(),
{
    let t = record_link_spec(s, LinkPurpose::Player(player, channel), proxy);
    let links = t.player_links;
    assert(links[links.len() - 1] == (player, channel, proxy));
    assert(links[links.len() - 1].0 == player && links[links.len() - 1].1 == channel);
    assert(has_player_link(links, player, channel));
}

/// Once the output link for a channel is recorded, routing never asks for
/// that link again.
pub proof fn recorded_output_link_is_not_requested_again(
    s: RoutingView,
    filter: u32,
    sink: u32,
    channel: Channel,
    proxy: u32,
)
    ensures
        output_channel_plan(
            record_link_spec(s, LinkPurpose::Output(channel), proxy),
            filter,
            sink,
            channel,
        ) == Seq::<ActionView>::empty(),
{
    let t = record_link_spec(s, LinkPurpose::Output(channel), proxy);
    let links = t.output_links;
    assert(links[links.len() - 1] == (channel, proxy));
    assert(links[links.len() - 1].0 == channel);
    assert(has_output_link(links, channel));
}

proof fn lemma_quote_search(v: Seq<char>, name: Seq<char>, m: int)
    requires
        v == name_value(name),
        0 <= m <= name.len(),
        forall|i: int| 0 <= i < name.len() ==> name[i] != '"',
    ensures
        find_from(v, seq!['"'], 9 + m) == Some(9 + name.len() as int),
    decreases name.len() - m,
{
    let pattern = seq!['"'];
    if m < name.len() {
        assert(v[9 + m] == name[m]);
        assert(v.subrange(9 + m, 9 + m + 1)[0] != pattern[0]);
        lemma_quote_search(v, name, m + 1);
    } else {
        assert(v.subrange(9 + m, 9 + m + 1) =~= pattern);
    }
}

/// The value Loom writes to name a device, `{"name":"<name>"}`, reads back
/// as that device's name, for every name without a double quote.
pub proof fn name_value_reads_back(name: Seq<char>)
    requires
        forall|i: int| 0 <= i < name.len() ==> name[i] != '"',
    ensures
        default_sink_name_spec(name_value(name)) == Some(name),
{
    let v = name_value(name);
    let key = name_key();
    assert(key.len() == 6);
    assert(v.len() == name.len() + 11);
    assert(v.subrange(0, 6)[0] != key[0]);
    assert(v.subrange(0, 6) != key);
    assert(v.subrange(1, 7) =~= key);
    assert(find_from(v, key, 1) == Some(1int));
    assert(find_from(v, key, 0) == Some(1int));
    assert(v.subrange(7, 8) =~= seq![':']);
    assert(find_from(v, seq![':'], 7) == Some(7int));
    let prefix = seq!['{', '"', 'n', 'a', 'm', 'e', '"', ':', '"'];
    assert(prefix.len() == 9);
    assert(prefix[8] == '"');
    assert(v == prefix + name + seq!['"', '}']);
    assert(v[8] == prefix[8]);
    assert(!is_unicode_whitespace(v[8]));
    assert(first_non_whitespace(v, 8) == 8);
    lemma_quote_search(v, name, 0);
    assert(v.subrange(9, 9 + name.len() as int) =~= name);
}

/// Whether an action is a player link that routing may ask for: from an
/// output port of a playing application (its port for the channel, or its
/// mono port) to the filter's input port for that channel, ports that
/// neither Loom nor anyone else links yet, created active and not
/// lingering.
pub open spec fn is_justified_player_link(s: RoutingView, filter: u32, action: ActionView) -> bool {
    match action {
        ActionView::CreateLink { purpose, output, input, passive, linger } => match purpose {
            LinkPurpose::Player(player, channel) => {
                &&& player_ids(s.nodes).contains(player)
                &&& !has_player_link(s.player_links, player, channel)
                &&& !ports_linked(s.links, output.id, input.id)
                &&& output.node_id == player && output.direction == PortDirection::Output
                &&& (output.channel == channel || output.channel == Channel::Mono)
                &&& input.node_id == filter && input.direction == PortDirection::Input
                &&& input.channel == channel
                &&& !passive && !linger
            },
            _ => false,
        },
        _ => false,
    }
}

proof fn lemma_find_port_matches(ports: Seq<Port>, node: u32, direction: PortDirection, channel: Channel)
    ensures
        find_port_spec(ports, node, direction, channel) matches Some(p) ==> p.node_id == node
            && p.direction == direction && p.channel == channel,
    decreases ports.len(),
{
    if ports.len() > 0 {
        lemma_find_port_matches(ports.drop_first(), node, direction, channel);
    }
}

proof fn lemma_player_plan_justified(s: RoutingView, filter: u32, players: Seq<u32>)
    requires
        forall|i: int| 0 <= i < players.len() ==> player_ids(s.nodes).contains(#[trigger] players[i]),
    ensures
        forall|i: int|
            0 <= i < player_plan(s, filter, players).len() ==> is_justified_player_link(
                s,
                filter,
                #[trigger] player_plan(s, filter, players)[i],
            ),
    decreases players.len(),
{
    if players.len() > 0 {
        let rest = players.drop_last();
        assert forall|i: int| 0 <= i < rest.len() implies player_ids(s.nodes).contains(
            #[trigger] rest[i],
        ) by {
            assert(rest[i] == players[i]);
        }
        lemma_player_plan_justified(s, filter, rest);
        let p = players.last();
        assert(player_ids(s.nodes).contains(players[players.len() - 1]));
        lemma_find_port_matches(s.ports, p, PortDirection::Output, Channel::Left);
        lemma_find_port_matches(s.ports, p, PortDirection::Output, Channel::Right);
        lemma_find_port_matches(s.ports, p, PortDirection::Output, Channel::Mono);
        lemma_find_port_matches(s.ports, filter, PortDirection::Input, Channel::Left);
        lemma_find_port_matches(s.ports, filter, PortDirection::Input, Channel::Right);
        let a = player_plan(s, filter, rest);
        let b = player_channel_plan(s, filter, p, Channel::Left);
        let c = player_channel_plan(s, filter, p, Channel::Right);
        assert forall|i: int| 0 <= i < b.len() implies is_justified_player_link(s, filter, #[trigger] b[i]) by {}
        assert forall|i: int| 0 <= i < c.len() implies is_justified_player_link(s, filter, #[trigger] c[i]) by {}
        assert forall|i: int| 0 <= i < (a + b + c).len() implies is_justified_player_link(
            s,
            filter,
            #[trigger] (a + b + c)[i],
        ) by {
            if i < a.len() {
                assert((a + b + c)[i] == a[i]);
            } else if i < a.len() + b.len() {
                assert((a + b + c)[i] == b[i - a.len()]);
            } else {
                assert((a + b + c)[i] == c[i - a.len() - b.len()]);
            }
        }
    }
}

proof fn lemma_bypass_destroys_justified(
    s: RoutingView,
    filter: u32,
    players: Seq<u32>,
    links: Seq<ExistingLink>,
)
    ensures
        forall|i: int|
            0 <= i < bypass_destroys(s, filter, players, links).len() ==> (#[trigger] bypass_destroys(
                s,
                filter,
                players,
                links,
            )[i] matches ActionView::DestroyGlobal(id) && exists|k: int|
                0 <= k < links.len() && #[trigger] links[k].id == id && is_bypass_link(
                    s,
                    filter,
                    players,
                    links[k],
                )),
    decreases links.len(),
{
    if links.len() > 0 {
        let rest = links.drop_last();
        lemma_bypass_destroys_justified(s, filter, players, rest);
        let d = bypass_destroys(s, filter, players, links);
        let r = bypass_destroys(s, filter, players, rest);
        assert forall|i: int| 0 <= i < d.len() implies (#[trigger] d[i] matches ActionView::DestroyGlobal(
            id,
        ) && exists|k: int|
            0 <= k < links.len() && #[trigger] links[k].id == id && is_bypass_link(
                s,
                filter,
                players,
                links[k],
            )) by {
            if i < r.len() {
                assert(d[i] == r[i]);
                let id = r[i]->DestroyGlobal_0;
                let k = choose|k: int|
                    0 <= k < rest.len() && #[trigger] rest[k].id == id && is_bypass_link(
                        s,
                        filter,
                        players,
                        rest[k],
                    );
                assert(links[k] == rest[k]);
            } else {
                assert(links[links.len() - 1] == links.last());
            }
        }
    }
}

/// Every action of routing the players is justified: each link it asks for
/// runs from an application into the filter and is not there yet, and each
/// link it destroys is a direct link from an application that already has
/// two links into the filter, to a device. All the links are asked for
/// before any link is destroyed, so that a stream always keeps a live
/// destination.
pub proof fn route_players_actions_are_justified(s: RoutingView)
    requires
        filter_node(s.nodes) is Some,
    ensures
        ({
            let f = filter_node(s.nodes).unwrap();
            let actions = route_players_spec(s).1;
            &&& forall|i: int|
                0 <= i < actions.len() && #[trigger] actions[i] is CreateLink
                    ==> is_justified_player_link(s, f.id, actions[i])
            &&& forall|i: int|
                0 <= i < actions.len() ==> (#[trigger] actions[i] matches ActionView::DestroyGlobal(
                    id,
                ) ==> exists|k: int|
                    0 <= k < s.links.len() && #[trigger] s.links[k].id == id && is_bypass_link(
                        s,
                        f.id,
                        player_ids(s.nodes),
                        s.links[k],
                    ))
            &&& forall|i: int, j: int|
                0 <= i < j < actions.len() && #[trigger] actions[j] is CreateLink
                    ==> #[trigger] actions[i] is CreateLink
        }),
{
    let f = filter_node(s.nodes).unwrap();
    let players = player_ids(s.nodes);
    assert forall|i: int| 0 <= i < players.len() implies players.contains(#[trigger] players[i]) by {}
    lemma_player_plan_justified(s, f.id, players);
    lemma_bypass_destroys_justified(s, f.id, players, s.links);
    let a = player_plan(s, f.id, players);
    let b = bypass_destroys(s, f.id, players, s.links);
    let actions = route_players_spec(s).1;
    assert(actions == a + b);
    assert forall|i: int| 0 <= i < actions.len() && #[trigger] actions[i] is CreateLink implies is_justified_player_link(
        s,
        f.id,
        actions[i],
    ) by {
        if i < a.len() {
            assert(actions[i] == a[i]);
        } else {
            assert(actions[i] == b[i - a.len()]);
        }
    }
    assert forall|i: int| 0 <= i < actions.len() implies (#[trigger] actions[i] matches ActionView::DestroyGlobal(
        id,
    ) ==> exists|k: int|
        0 <= k < s.links.len() && #[trigger] s.links[k].id == id && is_bypass_link(
            s,
            f.id,
            player_ids(s.nodes),
            s.links[k],
        )) by {
        if i < a.len() {
            assert(actions[i] == a[i]);
            assert(is_justified_player_link(s, f.id, a[i]));
        } else {
            assert(actions[i] == b[i - a.len()]);
        }
    }
    assert forall|i: int, j: int|
        0 <= i < j < actions.len() && #[trigger] actions[j] is CreateLink implies #[trigger] actions[i] is CreateLink by {
        if j < a.len() {
            assert(actions[i] == a[i]);
            assert(is_justified_player_link(s, f.id, a[i]));
        } else {
            assert(actions[j] == b[j - a.len()]);
        }
    }
}

/// Loom plays into a real device: neither its target nor the target it
/// remembers is its own filter.
pub open spec fn targets_real_device(s: RoutingView) -> bool {
    s.default_sink_name != Some(filter_node_name()) && s.saved_sink_name != Some(
        filter_node_name(),
    )
}

proof fn lemma_sink_named_has_name(nodes: Seq<NodeView>, name: Seq<char>)
    ensures
        sink_named(nodes, name) matches Some(n) ==> n.name == name,
    decreases nodes.len(),
{
    if nodes.len() > 0 {
        lemma_sink_named_has_name(nodes.drop_first(), name);
    }
}

proof fn lemma_fallback_is_not_filter(nodes: Seq<NodeView>)
    ensures
        fallback_sink(nodes) matches Some(n) ==> !is_filter_node(n),
    decreases nodes.len(),
{
    if nodes.len() > 0 {
        lemma_fallback_is_not_filter(nodes.drop_last());
    }
}

proof fn lemma_reconcile_targets_real_device(s: RoutingView)
    requires
        targets_real_device(s),
    ensures
        targets_real_device(reconcile_spec(s).0),
{
    if !s.shutting_down {
        match s.saved_sink_name {
            Some(n) => lemma_sink_named_has_name(s.nodes, n),
            None => {},
        }
        lemma_fallback_is_not_filter(s.nodes);
        let r = recover_target_sink_spec(s).0;
        assert(targets_real_device(r));
        let p = route_players_spec(r).0;
        assert(targets_real_device(p));
        assert(targets_real_device(route_output_spec(p).0));
    }
}

/// Loom never takes its own filter as the device it plays into: from the
/// initial state on, every operation keeps both its target and its
/// remembered target off the filter.
pub proof fn target_is_never_the_filter(
    s: RoutingView,
    id: u32,
    object_type: ObjectType,
    props: Option<GlobalPropsView>,
    value: Option<Seq<char>>,
    purpose: LinkPurpose,
    proxy: u32,
)
    requires
        targets_real_device(s),
    ensures
        targets_real_device(initial_view()),
        targets_real_device(add_global_spec(s, id, object_type, props).0),
        targets_real_device(remove_global_spec(s, id).0),
        targets_real_device(set_default_sink_spec(s, value).0),
        targets_real_device(set_saved_sink_spec(s, value).0),
        targets_real_device(metadata_bound_spec(s, id).0),
        targets_real_device(prepare_shutdown_spec(s).0),
        targets_real_device(finish_shutdown_spec(s).0),
        targets_real_device(record_link_spec(s, purpose, proxy)),
{
    match crate::loom::routing::global_entry(id, object_type, props) {
        Some(e) => lemma_reconcile_targets_real_device(crate::loom::routing::insert_entry(s, e)),
        None => {},
    }
    let s1 = remove_link_step(s, id).0;
    let s2 = remove_metadata_step(s1, id).0;
    let s3 = remove_node_step(s2, id).0;
    let s4 = remove_port_step(s3, id).0;
    assert(targets_real_device(s4));
    lemma_reconcile_targets_real_device(s4);
    let name = crate::loom::routing::value_sink_name(value);
    if name == Some(filter_node_name()) {
        lemma_reconcile_targets_real_device(
            RoutingView { filter_is_default: true, ..s },
        );
    } else {
        let t = RoutingView { filter_is_default: false, using_fallback_sink: false, ..s };
        let retargeted = if name != s.default_sink_name {
            clear_output_links_spec(
                RoutingView { default_sink_name: name, default_sink_value: value, ..t },
            )
        } else {
            (t, Seq::<ActionView>::empty())
        };
        let saved = save_target_sink_spec(retargeted.0).0;
        assert(targets_real_device(saved));
        lemma_reconcile_targets_real_device(saved);
        lemma_reconcile_targets_real_device(
            RoutingView { saved_sink_name: name, saved_sink_value: value, ..s },
        );
    }
    lemma_reconcile_targets_real_device(RoutingView { metadata: Some(id), ..s });
}

proof fn lemma_nodes_without(nodes: Seq<NodeView>, id: u32)
    ensures
        !has_node_id(nodes_without(nodes, id), id),
    decreases nodes.len(),
{
    if nodes.len() > 0 {
        lemma_nodes_without(nodes.drop_last(), id);
        let r = nodes_without(nodes.drop_last(), id);
        if nodes.last().id != id {
            assert forall|i: int| 0 <= i < r.push(nodes.last()).len() implies #[trigger] r.push(
                nodes.last(),
            )[i].id != id by {
                if i < r.len() {
                    assert(r.push(nodes.last())[i] == r[i]);
                }
            }
        }
    }
}

proof fn lemma_ports_without(ports: Seq<Port>, id: u32)
    ensures
        !has_port_id(ports_without(ports, id), id),
    decreases ports.len(),
{
    if ports.len() > 0 {
        lemma_ports_without(ports.drop_last(), id);
        let r = ports_without(ports.drop_last(), id);
        if ports.last().id != id {
            assert forall|i: int| 0 <= i < r.push(ports.last()).len() implies #[trigger] r.push(
                ports.last(),
            )[i].id != id by {
                if i < r.len() {
                    assert(r.push(ports.last())[i] == r[i]);
                }
            }
        }
    }
}

proof fn lemma_port_with_id_none(ports: Seq<Port>, id: u32)
    ensures
        crate::loom::routing::port_with_id(ports, id) is None ==> !has_port_id(ports, id),
    decreases ports.len(),
{
    if ports.len() > 0 {
        lemma_port_with_id_none(ports.drop_first(), id);
        if crate::loom::routing::port_with_id(ports, id) is None {
            assert forall|i: int| 0 <= i < ports.len() implies #[trigger] ports[i].id != id by {
                if i > 0 {
                    assert(ports[i] == ports.drop_first()[i - 1]);
                }
            }
        }
    }
}

proof fn lemma_links_without(links: Seq<ExistingLink>, id: u32)
    ensures
        !has_link_id(links_without(links, id), id),
    decreases links.len(),
{
    if links.len() > 0 {
        lemma_links_without(links.drop_last(), id);
        let r = links_without(links.drop_last(), id);
        if links.last().id != id {
            assert forall|i: int| 0 <= i < r.push(links.last()).len() implies #[trigger] r.push(
                links.last(),
            )[i].id != id by {
                if i < r.len() {
                    assert(r.push(links.last())[i] == r[i]);
                }
            }
        }
    }
}

proof fn lemma_links_kept_subset(s: RoutingView, filter: u32, players: Seq<u32>, links: Seq<ExistingLink>)
    ensures
        forall|i: int|
            0 <= i < links_kept(s, filter, players, links).len() ==> links.contains(
                #[trigger] links_kept(s, filter, players, links)[i],
            ),
    decreases links.len(),
{
    if links.len() > 0 {
        let rest = links.drop_last();
        lemma_links_kept_subset(s, filter, players, rest);
        let k = links_kept(s, filter, players, links);
        let r = links_kept(s, filter, players, rest);
        assert forall|i: int| 0 <= i < k.len() implies links.contains(#[trigger] k[i]) by {
            if i < r.len() {
                assert(k[i] == r[i]);
                let j = choose|j: int| 0 <= j < rest.len() && rest[j] == r[i];
                assert(links[j] == rest[j]);
            } else {
                assert(k[i] == links[links.len() - 1]);
            }
        }
    }
}

proof fn lemma_player_links_kept_subset(links: Seq<(u32, Channel, u32)>, which: PlayerLinkFilter)
    ensures
        forall|i: int|
            0 <= i < player_links_kept(links, which).len() ==> links.contains(
                #[trigger] player_links_kept(links, which)[i],
            ) && !crate::loom::routing::player_link_dropped(player_links_kept(links, which)[i], which),
    decreases links.len(),
{
    if links.len() > 0 {
        let rest = links.drop_last();
        lemma_player_links_kept_subset(rest, which);
        let k = player_links_kept(links, which);
        let r = player_links_kept(rest, which);
        assert forall|i: int| 0 <= i < k.len() implies links.contains(#[trigger] k[i])
            && !crate::loom::routing::player_link_dropped(k[i], which) by {
            if i < r.len() {
                assert(k[i] == r[i]);
                let j = choose|j: int| 0 <= j < rest.len() && rest[j] == r[i];
                assert(links[j] == rest[j]);
            } else {
                assert(k[i] == links[links.len() - 1]);
            }
        }
    }
}

proof fn lemma_output_links_kept(links: Seq<(Channel, u32)>, id: u32)
    ensures
        forall|i: int|
            0 <= i < output_links_kept(links, id).len() ==> links.contains(
                #[trigger] output_links_kept(links, id)[i],
            ) && output_links_kept(links, id)[i].1 != id,
    decreases links.len(),
{
    if links.len() > 0 {
        let rest = links.drop_last();
        lemma_output_links_kept(rest, id);
        let k = output_links_kept(links, id);
        let r = output_links_kept(rest, id);
        assert forall|i: int| 0 <= i < k.len() implies links.contains(#[trigger] k[i]) && k[i].1
            != id by {
            if i < r.len() {
                assert(k[i] == r[i]);
                let j = choose|j: int| 0 <= j < rest.len() && rest[j] == r[i];
                assert(links[j] == rest[j]);
            } else {
                assert(k[i] == links[links.len() - 1]);
            }
        }
    }
}

/// What reconciling may change of the graph and of the held links: nodes,
/// ports and player links stay as they are, links are only removed, and
/// output links are kept or all dropped.
proof fn lemma_reconcile_frame(s: RoutingView)
    ensures
        reconcile_spec(s).0.nodes == s.nodes,
        reconcile_spec(s).0.ports == s.ports,
        reconcile_spec(s).0.player_links == s.player_links,
        forall|i: int|
            0 <= i < reconcile_spec(s).0.links.len() ==> s.links.contains(
                #[trigger] reconcile_spec(s).0.links[i],
            ),
        reconcile_spec(s).0.output_links == s.output_links || reconcile_spec(s).0.output_links
            == Seq::<(Channel, u32)>::empty(),
{
    if !s.shutting_down {
        let r = recover_target_sink_spec(s).0;
        let p = route_players_spec(r).0;
        match filter_node(r.nodes) {
            Some(f) => lemma_links_kept_subset(r, f.id, player_ids(r.nodes), r.links),
            None => {},
        }
        assert(r.links == s.links);
    }
}

/// After the registry removes an object, Loom keeps no trace of it: no
/// node, port or link with its id remains; when it was a link, no link Loom
/// holds goes through a proxy of that id; when it was a node, Loom holds no
/// player link for it.
pub proof fn removal_leaves_no_trace(s: RoutingView, id: u32)
    ensures
        ({
            let t = remove_global_spec(s, id).0;
            &&& !has_node_id(t.nodes, id)
            &&& !has_port_id(t.ports, id)
            &&& !has_link_id(t.links, id)
            &&& has_link_id(s.links, id) ==> (forall|i: int|
                0 <= i < t.player_links.len() ==> #[trigger] t.player_links[i].2 != id)
            &&& has_link_id(s.links, id) ==> (forall|i: int|
                0 <= i < t.output_links.len() ==> #[trigger] t.output_links[i].1 != id)
            &&& has_node_id(s.nodes, id) ==> (forall|i: int|
                0 <= i < t.player_links.len() ==> #[trigger] t.player_links[i].0 != id)
        }),
{
    let s1 = remove_link_step(s, id).0;
    let s2 = remove_metadata_step(s1, id).0;
    let s3 = remove_node_step(s2, id).0;
    let s4 = remove_port_step(s3, id).0;
    let t = reconcile_spec(s4).0;
    lemma_links_without(s.links, id);
    lemma_nodes_without(s.nodes, id);
    lemma_ports_without(s3.ports, id);
    lemma_port_with_id_none(s3.ports, id);
    lemma_player_links_kept_subset(s.player_links, PlayerLinkFilter::Proxy(id));
    lemma_output_links_kept(s.output_links, id);
    lemma_player_links_kept_subset(s2.player_links, PlayerLinkFilter::Player(id));
    match crate::loom::routing::port_with_id(s3.ports, id) {
        Some(port) => lemma_player_links_kept_subset(
            s3.player_links,
            PlayerLinkFilter::Key(port.node_id, port.channel),
        ),
        None => {},
    }
    lemma_reconcile_frame(s4);
    // nodes, ports
    assert(s2.nodes == s.nodes);
    if has_node_id(s.nodes, id) {
        assert(s3.nodes == nodes_without(s.nodes, id));
    }
    assert(!has_node_id(s3.nodes, id));
    assert(s4.nodes == s3.nodes);
    assert(!has_port_id(s4.ports, id));
    // links
    assert(!has_link_id(s1.links, id));
    assert(s4.links == s1.links);
    assert forall|i: int| 0 <= i < t.links.len() implies #[trigger] t.links[i].id != id by {
        assert(s4.links.contains(t.links[i]));
    }
    // every held player link at the end was held after each earlier step
    assert forall|i: int| 0 <= i < t.player_links.len() implies s3.player_links.contains(
        #[trigger] t.player_links[i],
    ) && s2.player_links.contains(t.player_links[i]) by {
        let e = t.player_links[i];
        assert(t.player_links == s4.player_links);
        if s4.player_links != s3.player_links {
            assert(s3.player_links.contains(e));
        } else {
            assert(s4.player_links[i] == e);
        }
        let j = choose|j: int| 0 <= j < s3.player_links.len() && s3.player_links[j] == e;
        if s3.player_links != s2.player_links {
            assert(s2.player_links.contains(s3.player_links[j]));
        } else {
            assert(s2.player_links[j] == e);
        }
    }
    if has_link_id(s.links, id) {
        assert forall|i: int| 0 <= i < t.player_links.len() implies #[trigger] t.player_links[i].2
            != id by {
            let e = t.player_links[i];
            assert(s2.player_links.contains(e));
            let j = choose|j: int| 0 <= j < s1.player_links.len() && s1.player_links[j] == e;
            assert(!crate::loom::routing::player_link_dropped(
                s1.player_links[j],
                PlayerLinkFilter::Proxy(id),
            ));
        }
        assert forall|i: int| 0 <= i < t.output_links.len() implies #[trigger] t.output_links[i].1
            != id by {
            let e = t.output_links[i];
            assert(s4.output_links.len() > 0);
            assert(s4.output_links == s3.output_links);
            assert(s3.output_links == s1.output_links);
            assert(s4.output_links[i] == e);
            assert(s1.output_links.contains(e));
        }
    }
    if has_node_id(s.nodes, id) {
        assert forall|i: int| 0 <= i < t.player_links.len() implies #[trigger] t.player_links[i].0
            != id by {
            let e = t.player_links[i];
            assert(s3.player_links.contains(e));
            let j = choose|j: int| 0 <= j < s3.player_links.len() && s3.player_links[j] == e;
            assert(!crate::loom::routing::player_link_dropped(
                s3.player_links[j],
                PlayerLinkFilter::Player(id),
            ));
        }
    }
}

proof fn lemma_player_plan_complete(
    s: RoutingView,
    filter: u32,
    players: Seq<u32>,
    player: u32,
    channel: Channel,
)
    requires
        players.contains(player),
        channel == Channel::Left || channel == Channel::Right,
        player_channel_plan(s, filter, player, channel).len() == 1,
    ensures
        player_plan(s, filter, players).contains(player_channel_plan(s, filter, player, channel)[0]),
    decreases players.len(),
{
    let rest = players.drop_last();
    let a = player_plan(s, filter, rest);
    let left = player_channel_plan(s, filter, players.last(), Channel::Left);
    let right = player_channel_plan(s, filter, players.last(), Channel::Right);
    let whole = player_plan(s, filter, players);
    let target = player_channel_plan(s, filter, player, channel)[0];
    assert(whole == a + left + right);
    if players.last() == player {
        if channel == Channel::Left {
            assert(whole[a.len() as int] == target);
        } else {
            assert(whole[(a.len() + left.len()) as int] == target);
        }
    } else {
        let i = choose|i: int| 0 <= i < players.len() && players[i] == player;
        assert(i < players.len() - 1);
        assert(rest[i] == player);
        lemma_player_plan_complete(s, filter, rest, player, channel);
        let k = choose|k: int| 0 <= k < a.len() && a[k] == target;
        assert(whole[k] == target);
    }
}

/// Routing is complete: every stereo channel of a playing application that
/// has a port to send from (its own or its mono port) and a filter input to
/// go to, and that neither Loom nor anyone else links yet, is asked for a link
/// into the filter, active and not lingering.
pub proof fn route_players_links_every_unlinked_channel(
    s: RoutingView,
    player: u32,
    channel: Channel,
    output: Port,
    input: Port,
)
    requires
        filter_node(s.nodes) is Some,
        player_ids(s.nodes).contains(player),
        channel == Channel::Left || channel == Channel::Right,
        source_port(s.ports, player, channel) == Some(output),
        find_port_spec(s.ports, filter_node(s.nodes).unwrap().id, PortDirection::Input, channel)
            == Some(input),
        !has_player_link(s.player_links, player, channel),
        !ports_linked(s.links, output.id, input.id),
    ensures
        route_players_spec(s).1.contains(
            ActionView::CreateLink {
                purpose: LinkPurpose::Player(player, channel),
                output,
                input,
                passive: false,
                linger: false,
            },
        ),
{
    let f = filter_node(s.nodes).unwrap();
    let players = player_ids(s.nodes);
    lemma_player_plan_complete(s, f.id, players, player, channel);
    let plan = player_plan(s, f.id, players);
    let actions = route_players_spec(s).1;
    let target = player_channel_plan(s, f.id, player, channel)[0];
    let k = choose|k: int| 0 <= k < plan.len() && plan[k] == target;
    assert(actions == plan + bypass_destroys(s, f.id, players, s.links));
    assert(actions[k] == target);
}

/// Whether no id occurs twice among the nodes, among the ports and among the
/// links that routing knows.
pub open spec fn ids_unique(s: RoutingView) -> bool {
    &&& forall|i: int, j: int|
        0 <= i < j < s.nodes.len() ==> #[trigger] s.nodes[i].id != #[trigger] s.nodes[j].id
    &&& forall|i: int, j: int|
        0 <= i < j < s.ports.len() ==> #[trigger] s.ports[i].id != #[trigger] s.ports[j].id
    &&& forall|i: int, j: int|
        0 <= i < j < s.links.len() ==> #[trigger] s.links[i].id != #[trigger] s.links[j].id
}

proof fn lemma_links_kept_unique(s: RoutingView, filter: u32, players: Seq<u32>, links: Seq<ExistingLink>)
    requires
        forall|i: int, j: int| 0 <= i < j < links.len() ==> #[trigger] links[i].id != #[trigger] links[j].id,
    ensures
        ({
            let k = links_kept(s, filter, players, links);
            forall|i: int, j: int| 0 <= i < j < k.len() ==> #[trigger] k[i].id != #[trigger] k[j].id
        }),
    decreases links.len(),
{
    if links.len() > 0 {
        let rest = links.drop_last();
        assert forall|i: int, j: int| 0 <= i < j < rest.len() implies #[trigger] rest[i].id
            != #[trigger] rest[j].id by {
            assert(rest[i] == links[i] && rest[j] == links[j]);
        }
        lemma_links_kept_unique(s, filter, players, rest);
        lemma_links_kept_subset(s, filter, players, rest);
        let r = links_kept(s, filter, players, rest);
        let k = links_kept(s, filter, players, links);
        if !is_bypass_link(s, filter, players, links.last()) {
            assert forall|i: int, j: int| 0 <= i < j < k.len() implies #[trigger] k[i].id
                != #[trigger] k[j].id by {
                if j == r.len() {
                    assert(rest.contains(r[i]));
                    let m = choose|m: int| 0 <= m < rest.len() && rest[m] == r[i];
                    assert(links[m] == rest[m]);
                    assert(links[m].id != links[links.len() - 1].id);
                } else {
                    assert(k[i] == r[i] && k[j] == r[j]);
                }
            }
        }
    }
}

proof fn lemma_nodes_without_unique(nodes: Seq<NodeView>, id: u32)
    requires
        forall|i: int, j: int| 0 <= i < j < nodes.len() ==> #[trigger] nodes[i].id != #[trigger] nodes[j].id,
    ensures
        ({
            let k = nodes_without(nodes, id);
            &&& forall|i: int| 0 <= i < k.len() ==> nodes.contains(#[trigger] k[i])
            &&& forall|i: int, j: int| 0 <= i < j < k.len() ==> #[trigger] k[i].id != #[trigger] k[j].id
        }),
    decreases nodes.len(),
{
    if nodes.len() > 0 {
        let rest = nodes.drop_last();
        assert forall|i: int, j: int| 0 <= i < j < rest.len() implies #[trigger] rest[i].id
            != #[trigger] rest[j].id by {
            assert(rest[i] == nodes[i] && rest[j] == nodes[j]);
        }
        lemma_nodes_without_unique(rest, id);
        let r = nodes_without(rest, id);
        let k = nodes_without(nodes, id);
        assert forall|i: int| 0 <= i < k.len() implies nodes.contains(#[trigger] k[i]) by {
            if i < r.len() {
                assert(k[i] == r[i]);
                let m = choose|m: int| 0 <= m < rest.len() && rest[m] == r[i];
                assert(nodes[m] == rest[m]);
            } else {
                assert(k[i] == nodes[nodes.len() - 1]);
            }
        }
        if nodes.last().id != id {
            assert forall|i: int, j: int| 0 <= i < j < k.len() implies #[trigger] k[i].id
                != #[trigger] k[j].id by {
                if j == r.len() {
                    let m = choose|m: int| 0 <= m < rest.len() && rest[m] == r[i];
                    assert(nodes[m] == rest[m]);
                    assert(nodes[m].id != nodes[nodes.len() - 1].id);
                } else {
                    assert(k[i] == r[i] && k[j] == r[j]);
                }
            }
        }
    }
}

proof fn lemma_ports_without_unique(ports: Seq<Port>, id: u32)
    requires
        forall|i: int, j: int| 0 <= i < j < ports.len() ==> #[trigger] ports[i].id != #[trigger] ports[j].id,
    ensures
        ({
            let k = ports_without(ports, id);
            &&& forall|i: int| 0 <= i < k.len() ==> ports.contains(#[trigger] k[i])
            &&& forall|i: int, j: int| 0 <= i < j < k.len() ==> #[trigger] k[i].id != #[trigger] k[j].id
        }),
    decreases ports.len(),
{
    if ports.len() > 0 {
        let rest = ports.drop_last();
        assert forall|i: int, j: int| 0 <= i < j < rest.len() implies #[trigger] rest[i].id
            != #[trigger] rest[j].id by {
            assert(rest[i] == ports[i] && rest[j] == ports[j]);
        }
        lemma_ports_without_unique(rest, id);
        let r = ports_without(rest, id);
        let k = ports_without(ports, id);
        assert forall|i: int| 0 <= i < k.len() implies ports.contains(#[trigger] k[i]) by {
            if i < r.len() {
                assert(k[i] == r[i]);
                let m = choose|m: int| 0 <= m < rest.len() && rest[m] == r[i];
                assert(ports[m] == rest[m]);
            } else {
                assert(k[i] == ports[ports.len() - 1]);
            }
        }
        if ports.last().id != id {
            assert forall|i: int, j: int| 0 <= i < j < k.len() implies #[trigger] k[i].id
                != #[trigger] k[j].id by {
                if j == r.len() {
                    let m = choose|m: int| 0 <= m < rest.len() && rest[m] == r[i];
                    assert(ports[m] == rest[m]);
                    assert(ports[m].id != ports[ports.len() - 1].id);
                } else {
                    assert(k[i] == r[i] && k[j] == r[j]);
                }
            }
        }
    }
}

proof fn lemma_links_without_unique(links: Seq<ExistingLink>, id: u32)
    requires
        forall|i: int, j: int| 0 <= i < j < links.len() ==> #[trigger] links[i].id != #[trigger] links[j].id,
    ensures
        ({
            let k = links_without(links, id);
            &&& forall|i: int| 0 <= i < k.len() ==> links.contains(#[trigger] k[i])
            &&& forall|i: int, j: int| 0 <= i < j < k.len() ==> #[trigger] k[i].id != #[trigger] k[j].id
        }),
    decreases links.len(),
{
    if links.len() > 0 {
        let rest = links.drop_last();
        assert forall|i: int, j: int| 0 <= i < j < rest.len() implies #[trigger] rest[i].id
            != #[trigger] rest[j].id by {
            assert(rest[i] == links[i] && rest[j] == links[j]);
        }
        lemma_links_without_unique(rest, id);
        let r = links_without(rest, id);
        let k = links_without(links, id);
        assert forall|i: int| 0 <= i < k.len() implies links.contains(#[trigger] k[i]) by {
            if i < r.len() {
                assert(k[i] == r[i]);
                let m = choose|m: int| 0 <= m < rest.len() && rest[m] == r[i];
                assert(links[m] == rest[m]);
            } else {
                assert(k[i] == links[links.len() - 1]);
            }
        }
        if links.last().id != id {
            assert forall|i: int, j: int| 0 <= i < j < k.len() implies #[trigger] k[i].id
                != #[trigger] k[j].id by {
                if j == r.len() {
                    let m = choose|m: int| 0 <= m < rest.len() && rest[m] == r[i];
                    assert(links[m] == rest[m]);
                    assert(links[m].id != links[links.len() - 1].id);
                } else {
                    assert(k[i] == r[i] && k[j] == r[j]);
                }
            }
        }
    }
}

proof fn lemma_reconcile_keeps_ids_unique(s: RoutingView)
    requires
        ids_unique(s),
    ensures
        ids_unique(reconcile_spec(s).0),
{
    if !s.shutting_down {
        let r = recover_target_sink_spec(s).0;
        assert(r.nodes == s.nodes && r.ports == s.ports && r.links == s.links);
        let p = route_players_spec(r).0;
        if let Some(f) = filter_node(r.nodes) {
            lemma_links_kept_unique(r, f.id, player_ids(r.nodes), r.links);
        }
        assert(ids_unique(p));
        let o = route_output_spec(p).0;
        assert(o.nodes == p.nodes && o.ports == p.ports && o.links == p.links);
    }
}

proof fn lemma_settings_keep_ids_unique(s: RoutingView, id: u32, value: Option<Seq<char>>)
    requires
        ids_unique(s),
    ensures
        ids_unique(set_default_sink_spec(s, value).0),
        ids_unique(set_saved_sink_spec(s, value).0),
        ids_unique(metadata_bound_spec(s, id).0),
{
    lemma_reconcile_keeps_ids_unique(RoutingView { filter_is_default: true, ..s });
    let name = crate::loom::routing::value_sink_name(value);
    let t = RoutingView { filter_is_default: false, using_fallback_sink: false, ..s };
    let retargeted: (RoutingView, Seq<ActionView>) = if name != s.default_sink_name {
        clear_output_links_spec(RoutingView { default_sink_name: name, default_sink_value: value, ..t })
    } else {
        (t, Seq::empty())
    };
    let saved = save_target_sink_spec(retargeted.0).0;
    assert(saved.nodes == s.nodes && saved.ports == s.ports && saved.links == s.links);
    lemma_reconcile_keeps_ids_unique(saved);
    lemma_reconcile_keeps_ids_unique(RoutingView { saved_sink_name: name, saved_sink_value: value, ..s });
    lemma_reconcile_keeps_ids_unique(RoutingView { metadata: Some(id), ..s });
}

proof fn lemma_add_global_keeps_ids_unique(
    s: RoutingView,
    id: u32,
    object_type: ObjectType,
    props: Option<GlobalPropsView>,
)
    requires
        ids_unique(s),
    ensures
        ids_unique(add_global_spec(s, id, object_type, props).0),
{
    match crate::loom::routing::global_entry(id, object_type, props) {
        None => {},
        Some(entry) => {
            let t = crate::loom::routing::insert_entry(s, entry);
            assert(ids_unique(t)) by {
                match entry {
                    crate::loom::routing::Entry::Node(n) => {
                        if !has_node_id(s.nodes, n.id) {
                            assert forall|i: int, j: int| 0 <= i < j < t.nodes.len() implies #[trigger] t.nodes[i].id
                                != #[trigger] t.nodes[j].id by {
                                if j == s.nodes.len() {
                                    assert(t.nodes[i] == s.nodes[i]);
                                }
                            }
                        }
                    },
                    crate::loom::routing::Entry::Port(n) => {
                        if !has_port_id(s.ports, n.id) {
                            assert forall|i: int, j: int| 0 <= i < j < t.ports.len() implies #[trigger] t.ports[i].id
                                != #[trigger] t.ports[j].id by {
                                if j == s.ports.len() {
                                    assert(t.ports[i] == s.ports[i]);
                                }
                            }
                        }
                    },
                    crate::loom::routing::Entry::Link(n) => {
                        if !has_link_id(s.links, n.id) {
                            assert forall|i: int, j: int| 0 <= i < j < t.links.len() implies #[trigger] t.links[i].id
                                != #[trigger] t.links[j].id by {
                                if j == s.links.len() {
                                    assert(t.links[i] == s.links[i]);
                                }
                            }
                        }
                    },
                }
            }
            lemma_reconcile_keeps_ids_unique(t);
        },
    }
}

proof fn lemma_remove_global_keeps_ids_unique(s: RoutingView, id: u32)
    requires
        ids_unique(s),
    ensures
        ids_unique(remove_global_spec(s, id).0),
{
    let a = remove_link_step(s, id).0;
    lemma_links_without_unique(s.links, id);
    assert(ids_unique(a));
    let b = remove_metadata_step(a, id).0;
    assert(ids_unique(b));
    let c = remove_node_step(b, id).0;
    lemma_nodes_without_unique(b.nodes, id);
    assert(ids_unique(c));
    let d = remove_port_step(c, id).0;
    lemma_ports_without_unique(c.ports, id);
    assert(ids_unique(d));
    lemma_reconcile_keeps_ids_unique(d);
}

/// No id occurs twice: the graph starts empty, and every operation keeps
/// the ids of the known nodes, ports and links unique (an announcement of a
/// known id replaces the entry, a removal drops it, routing only drops links,
/// and nothing else touches them).
pub proof fn ids_stay_unique(
    s: RoutingView,
    id: u32,
    object_type: ObjectType,
    props: Option<GlobalPropsView>,
    value: Option<Seq<char>>,
    purpose: LinkPurpose,
)
    requires
        ids_unique(s),
    ensures
        ids_unique(initial_view()),
        ids_unique(add_global_spec(s, id, object_type, props).0),
        ids_unique(remove_global_spec(s, id).0),
        ids_unique(set_default_sink_spec(s, value).0),
        ids_unique(set_saved_sink_spec(s, value).0),
        ids_unique(metadata_bound_spec(s, id).0),
        ids_unique(prepare_shutdown_spec(s).0),
        ids_unique(finish_shutdown_spec(s).0),
        ids_unique(record_link_spec(s, purpose, id)),
{
    lemma_settings_keep_ids_unique(s, id, value);
    lemma_add_global_keeps_ids_unique(s, id, object_type, props);
    lemma_remove_global_keeps_ids_unique(s, id);
}
/// Whether none of the actions creates a link or destroys a global object.
pub open spec fn leaves_links_alone(actions: Seq<ActionView>) -> bool {
    forall|i: int|
        0 <= i < actions.len() ==> !(#[trigger] actions[i] is CreateLink) && !(actions[i] is DestroyGlobal)
}

proof fn lemma_settle_keeps_quiet(s: RoutingView, id: u32, value: Option<Seq<char>>)
    requires
        s.shutting_down,
    ensures
        set_default_sink_spec(s, value).0.shutting_down,
        leaves_links_alone(set_default_sink_spec(s, value).1),
        set_saved_sink_spec(s, value).0.shutting_down,
        leaves_links_alone(set_saved_sink_spec(s, value).1),
        metadata_bound_spec(s, id).0.shutting_down,
        leaves_links_alone(metadata_bound_spec(s, id).1),
{
    let name = crate::loom::routing::value_sink_name(value);
    let t = RoutingView { filter_is_default: false, using_fallback_sink: false, ..s };
    let retargeted: (RoutingView, Seq<ActionView>) = if name != s.default_sink_name {
        clear_output_links_spec(RoutingView { default_sink_name: name, default_sink_value: value, ..t })
    } else {
        (t, Seq::empty())
    };
    let saved = save_target_sink_spec(retargeted.0);
    let first = retargeted.1 + saved.1;
    assert forall|i: int| 0 <= i < retargeted.1.len() implies !(#[trigger] retargeted.1[i] is CreateLink)
        && !(retargeted.1[i] is DestroyGlobal) by {}
    assert forall|i: int| 0 <= i < saved.1.len() implies !(#[trigger] saved.1[i] is CreateLink)
        && !(saved.1[i] is DestroyGlobal) by {}
    assert forall|i: int| 0 <= i < first.len() implies !(#[trigger] first[i] is CreateLink)
        && !(first[i] is DestroyGlobal) by {
        if i < retargeted.1.len() {
            assert(first[i] == retargeted.1[i]);
        } else {
            assert(first[i] == saved.1[i - retargeted.1.len()]);
        }
    }
    assert(reconcile_spec(saved.0) == (saved.0, Seq::<ActionView>::empty()));
    assert(first + Seq::<ActionView>::empty() =~= first);
}

proof fn lemma_player_releases_only_release(links: Seq<(u32, Channel, u32)>, which: PlayerLinkFilter)
    ensures
        forall|i: int|
            0 <= i < crate::loom::routing::player_link_releases(links, which).len()
                ==> #[trigger] crate::loom::routing::player_link_releases(links, which)[i] is ReleaseLink,
    decreases links.len(),
{
    if links.len() > 0 {
        lemma_player_releases_only_release(links.drop_last(), which);
    }
}

proof fn lemma_output_releases_only_release(links: Seq<(Channel, u32)>, id: u32)
    ensures
        forall|i: int|
            0 <= i < crate::loom::routing::output_link_releases(links, id).len()
                ==> #[trigger] crate::loom::routing::output_link_releases(links, id)[i] is ReleaseLink,
    decreases links.len(),
{
    if links.len() > 0 {
        lemma_output_releases_only_release(links.drop_last(), id);
    }
}

proof fn lemma_concat_leaves_links_alone(a: Seq<ActionView>, b: Seq<ActionView>)
    requires
        leaves_links_alone(a),
        leaves_links_alone(b),
    ensures
        leaves_links_alone(a + b),
{
    assert forall|i: int| 0 <= i < (a + b).len() implies !(#[trigger] (a + b)[i] is CreateLink)
        && !((a + b)[i] is DestroyGlobal) by {
        if i < a.len() {
            assert((a + b)[i] == a[i]);
        } else {
            assert((a + b)[i] == b[i - a.len()]);
        }
    }
}

proof fn lemma_remove_keeps_quiet(s: RoutingView, id: u32)
    requires
        s.shutting_down,
    ensures
        remove_global_spec(s, id).0.shutting_down,
        leaves_links_alone(remove_global_spec(s, id).1),
{
    let a = remove_link_step(s, id);
    let b = remove_metadata_step(a.0, id);
    let c = remove_node_step(b.0, id);
    let d = remove_port_step(c.0, id);
    lemma_player_releases_only_release(s.player_links, PlayerLinkFilter::Proxy(id));
    lemma_output_releases_only_release(s.output_links, id);
    lemma_concat_leaves_links_alone(
        crate::loom::routing::player_link_releases(s.player_links, PlayerLinkFilter::Proxy(id)),
        crate::loom::routing::output_link_releases(s.output_links, id),
    );
    lemma_player_releases_only_release(b.0.player_links, PlayerLinkFilter::Player(id));
    let released = crate::loom::routing::player_link_releases(
        b.0.player_links,
        PlayerLinkFilter::Player(id),
    );
    let t = RoutingView {
        nodes: nodes_without(b.0.nodes, id),
        player_links: player_links_kept(b.0.player_links, PlayerLinkFilter::Player(id)),
        ..b.0
    };
    assert(leaves_links_alone(clear_output_links_spec(t).1));
    lemma_concat_leaves_links_alone(released, clear_output_links_spec(t).1);
    match crate::loom::routing::port_with_id(c.0.ports, id) {
        None => {},
        Some(port) => {
            lemma_player_releases_only_release(
                c.0.player_links,
                PlayerLinkFilter::Key(port.node_id, port.channel),
            );
            let t = RoutingView { ports: ports_without(c.0.ports, id), ..c.0 };
            assert(leaves_links_alone(clear_output_links_spec(t).1));
        },
    }
    assert(leaves_links_alone(a.1));
    assert(leaves_links_alone(b.1));
    assert(leaves_links_alone(c.1));
    assert(leaves_links_alone(d.1));
    let all = a.1 + b.1 + c.1 + d.1;
    assert forall|i: int| 0 <= i < all.len() implies !(#[trigger] all[i] is CreateLink)
        && !(all[i] is DestroyGlobal) by {
        if i < a.1.len() {
            assert(all[i] == a.1[i]);
        } else if i < a.1.len() + b.1.len() {
            assert(all[i] == b.1[i - a.1.len()]);
        } else if i < a.1.len() + b.1.len() + c.1.len() {
            assert(all[i] == c.1[i - a.1.len() - b.1.len()]);
        } else {
            assert(all[i] == d.1[i - a.1.len() - b.1.len() - c.1.len()]);
        }
    }
    assert(reconcile_spec(d.0) == (d.0, Seq::<ActionView>::empty()));
    assert(all + Seq::<ActionView>::empty() =~= all);
}

/// Once shutdown has begun, nothing more is routed: a second shutdown request
/// does nothing, and an announcement, a removal, a new default or saved sink
/// or a bound metadata object neither creates a link nor destroys a global
/// object, and Loom stays shutting down.
pub proof fn nothing_routed_after_shutdown_begins(
    s: RoutingView,
    id: u32,
    object_type: ObjectType,
    props: Option<GlobalPropsView>,
    value: Option<Seq<char>>,
)
    requires
        s.shutting_down,
    ensures
        prepare_shutdown_spec(s) == (s, Seq::<ActionView>::empty()),
        add_global_spec(s, id, object_type, props).0.shutting_down,
        leaves_links_alone(add_global_spec(s, id, object_type, props).1),
        remove_global_spec(s, id).0.shutting_down,
        leaves_links_alone(remove_global_spec(s, id).1),
        set_default_sink_spec(s, value).0.shutting_down,
        leaves_links_alone(set_default_sink_spec(s, value).1),
        set_saved_sink_spec(s, value).0.shutting_down,
        leaves_links_alone(set_saved_sink_spec(s, value).1),
        metadata_bound_spec(s, id).0.shutting_down,
        leaves_links_alone(metadata_bound_spec(s, id).1),
{
    match crate::loom::routing::global_entry(id, object_type, props) {
        None => {},
        Some(entry) => {
            let t = crate::loom::routing::insert_entry(s, entry);
            assert(t.shutting_down);
        },
    }
    lemma_remove_keeps_quiet(s, id);
    lemma_settle_keeps_quiet(s, id, value);
}

/// The first shutdown request starts the shutdown, so everything above holds
/// from then on.
pub proof fn prepare_shutdown_starts_shutting_down(s: RoutingView)
    ensures
        prepare_shutdown_spec(s).0.shutting_down,
{
}

/// Routing destroys only direct links from a player to a device: each
/// `DestroyGlobal` it asks for names a known link that leaves a playing
/// application and enters an `Audio/Sink` node other than the filter, so the
/// players' own links into the filter are never destroyed.
pub proof fn route_players_destroys_only_direct_device_links(s: RoutingView)
    requires
        filter_node(s.nodes) is Some,
    ensures
        ({
            let f = filter_node(s.nodes).unwrap();
            let actions = route_players_spec(s).1;
            forall|i: int|
                0 <= i < actions.len() ==> (#[trigger] actions[i] matches ActionView::DestroyGlobal(
                    id,
                ) ==> exists|k: int|
                    0 <= k < s.links.len() && #[trigger] s.links[k].id == id && s.links[k].input_node
                        != f.id && player_ids(s.nodes).contains(s.links[k].output_node) && exists|
                        j: int,
                    |
                        0 <= j < s.nodes.len() && #[trigger] s.nodes[j].id == s.links[k].input_node
                            && s.nodes[j].media_class == audio_sink_class())
        }),
{
    route_players_actions_are_justified(s);
}

/// The fallback device is an `Audio/Sink` node other than the filter with the
/// highest session priority of all such nodes; there is one whenever such a
/// node exists.
pub proof fn fallback_is_the_highest_priority_device(nodes: Seq<NodeView>)
    ensures
        fallback_sink(nodes) matches Some(n) ==> {
            &&& nodes.contains(n)
            &&& !is_filter_node(n)
            &&& n.media_class == audio_sink_class()
            &&& forall|i: int|
                0 <= i < nodes.len() && !is_filter_node(#[trigger] nodes[i]) && nodes[i].media_class
                    == audio_sink_class() ==> nodes[i].priority <= n.priority
        },
        fallback_sink(nodes) is None ==> forall|i: int|
            0 <= i < nodes.len() ==> is_filter_node(#[trigger] nodes[i]) || nodes[i].media_class
                != audio_sink_class(),
    decreases nodes.len(),
{
    if nodes.len() > 0 {
        let rest = nodes.drop_last();
        fallback_is_the_highest_priority_device(rest);
        assert forall|i: int| 0 <= i < rest.len() implies #[trigger] rest[i] == nodes[i] by {}
        match fallback_sink(nodes) {
            Some(n) => {
                if n == nodes.last() {
                    assert(nodes[nodes.len() - 1] == n);
                } else {
                    let j = choose|j: int| 0 <= j < rest.len() && rest[j] == n;
                    assert(nodes[j] == n);
                }
                assert forall|i: int|
                    0 <= i < nodes.len() && !is_filter_node(#[trigger] nodes[i])
                        && nodes[i].media_class == audio_sink_class() implies nodes[i].priority
                    <= n.priority by {
                    if i < rest.len() {
                        assert(rest[i] == nodes[i]);
                    }
                }
            },
            None => {
                assert forall|i: int| 0 <= i < nodes.len() implies is_filter_node(#[trigger] nodes[i])
                    || nodes[i].media_class != audio_sink_class() by {
                    if i < rest.len() {
                        assert(rest[i] == nodes[i]);
                    }
                }
            },
        }
    }
}

/// Whether an action is a link that shutdown may ask for: from an output port
/// of a playing application to an input port of the device, between ports
/// that nobody links yet, active and outliving Loom.
pub open spec fn is_needed_shutdown_link(s: RoutingView, sink: u32, action: ActionView) -> bool {
    match action {
        ActionView::CreateLink { purpose, output, input, passive, linger } => {
            &&& purpose == LinkPurpose::Shutdown
            &&& !ports_linked(s.links, output.id, input.id)
            &&& player_ids(s.nodes).contains(output.node_id)
            &&& output.direction == PortDirection::Output
            &&& input.node_id == sink && input.direction == PortDirection::Input
            &&& !passive && linger
        },
        _ => false,
    }
}

proof fn lemma_shutdown_plan_needed(s: RoutingView, sink: u32, players: Seq<u32>)
    requires
        forall|i: int| 0 <= i < players.len() ==> player_ids(s.nodes).contains(#[trigger] players[i]),
    ensures
        forall|i: int|
            0 <= i < shutdown_plan(s, sink, players).len() ==> is_needed_shutdown_link(
                s,
                sink,
                #[trigger] shutdown_plan(s, sink, players)[i],
            ),
    decreases players.len(),
{
    if players.len() > 0 {
        let rest = players.drop_last();
        assert forall|i: int| 0 <= i < rest.len() implies player_ids(s.nodes).contains(
            #[trigger] rest[i],
        ) by {
            assert(rest[i] == players[i]);
        }
        lemma_shutdown_plan_needed(s, sink, rest);
        let p = players.last();
        assert(player_ids(s.nodes).contains(players[players.len() - 1]));
        let a = shutdown_plan(s, sink, rest);
        let l = shutdown_channel_plan(s, sink, p, Channel::Left);
        let r = shutdown_channel_plan(s, sink, p, Channel::Right);
        lemma_find_port_matches(s.ports, p, PortDirection::Output, Channel::Left);
        lemma_find_port_matches(s.ports, p, PortDirection::Output, Channel::Right);
        lemma_find_port_matches(s.ports, p, PortDirection::Output, Channel::Mono);
        lemma_find_port_matches(s.ports, sink, PortDirection::Input, Channel::Left);
        lemma_find_port_matches(s.ports, sink, PortDirection::Input, Channel::Right);
        let all = shutdown_plan(s, sink, players);
        assert(all == a + l + r);
        assert forall|i: int| 0 <= i < all.len() implies is_needed_shutdown_link(
            s,
            sink,
            #[trigger] all[i],
        ) by {
            if i < a.len() {
                assert(all[i] == a[i]);
            } else if i < a.len() + l.len() {
                assert(all[i] == l[i - a.len()]);
            } else {
                assert(all[i] == r[i - a.len() - l.len()]);
            }
        }
    }
}

/// Shutdown asks only for links that are missing: every link it asks for
/// runs from a playing application to the target device between ports that
/// no link joins yet, so an existing direct link is never doubled.
pub proof fn shutdown_links_only_where_missing(s: RoutingView)
    ensures
        forall|i: int|
            0 <= i < finish_shutdown_spec(s).1.len() && (#[trigger] finish_shutdown_spec(s).1[i]) is CreateLink
                ==> shutdown_sink(s) is Some && is_needed_shutdown_link(
                s,
                shutdown_sink(s).unwrap(),
                finish_shutdown_spec(s).1[i],
            ),
{
    if !s.shutdown_links_created {
        if let Some(sink) = shutdown_sink(s) {
            let players = player_ids(s.nodes);
            assert forall|i: int| 0 <= i < players.len() implies players.contains(
                #[trigger] players[i],
            ) by {}
            lemma_shutdown_plan_needed(s, sink, players);
        }
    }
}

/// The filter is found by its name: the node found is a known node named
/// `loom_virtual_sink`, and none is found only when no known node has that
/// name.
pub proof fn filter_is_found_by_name(nodes: Seq<NodeView>)
    ensures
        filter_node(nodes) matches Some(n) ==> nodes.contains(n) && n.name == filter_node_name(),
        filter_node(nodes) is None ==> forall|i: int|
            0 <= i < nodes.len() ==> (#[trigger] nodes[i]).name != filter_node_name(),
    decreases nodes.len(),
{
    if nodes.len() > 0 {
        let rest = nodes.drop_first();
        filter_is_found_by_name(rest);
        if !is_filter_node(nodes[0]) {
            if let Some(n) = filter_node(rest) {
                let j = choose|j: int| 0 <= j < rest.len() && rest[j] == n;
                assert(nodes[j + 1] == n);
            } else {
                assert forall|i: int| 0 <= i < nodes.len() implies (#[trigger] nodes[i]).name
                    != filter_node_name() by {
                    if i > 0 {
                        assert(nodes[i] == rest[i - 1]);
                    }
                }
            }
        } else {
            assert(nodes[0] == nodes[0]);
        }
    }
}

/// A device is found by its name: the node found is a known `Audio/Sink` node
/// with that name, and none is found only when no known `Audio/Sink` node has
/// it.
pub proof fn device_is_found_by_name(nodes: Seq<NodeView>, name: Seq<char>)
    ensures
        sink_named(nodes, name) matches Some(n) ==> nodes.contains(n) && n.name == name
            && n.media_class == audio_sink_class(),
        sink_named(nodes, name) is None ==> forall|i: int|
            0 <= i < nodes.len() ==> !((#[trigger] nodes[i]).name == name && nodes[i].media_class
                == audio_sink_class()),
    decreases nodes.len(),
{
    if nodes.len() > 0 {
        let rest = nodes.drop_first();
        device_is_found_by_name(rest, name);
        if !crate::loom::routing::is_sink_named(nodes[0], name) {
            if let Some(n) = sink_named(rest, name) {
                let j = choose|j: int| 0 <= j < rest.len() && rest[j] == n;
                assert(nodes[j + 1] == n);
            } else {
                assert forall|i: int| 0 <= i < nodes.len() implies !((#[trigger] nodes[i]).name
                    == name && nodes[i].media_class == audio_sink_class()) by {
                    if i > 0 {
                        assert(nodes[i] == rest[i - 1]);
                    }
                }
            }
        } else {
            assert(nodes[0] == nodes[0]);
        }
    }
}

/// The players are exactly the known nodes of class `Stream/Output/Audio`.
pub proof fn players_are_the_output_streams(nodes: Seq<NodeView>, id: u32)
    ensures
        player_ids(nodes).contains(id) <==> exists|i: int|
            0 <= i < nodes.len() && (#[trigger] nodes[i]).id == id && nodes[i].media_class
                == player_class(),
    decreases nodes.len(),
{
    if nodes.len() > 0 {
        let rest = nodes.drop_last();
        players_are_the_output_streams(rest, id);
        let r = player_ids(rest);
        if player_ids(nodes).contains(id) {
            let k = choose|k: int| 0 <= k < player_ids(nodes).len() && player_ids(nodes)[k] == id;
            if k < r.len() && nodes.last().media_class == player_class() {
                assert(player_ids(nodes)[k] == r[k]);
                assert(r.contains(id));
                let i = choose|i: int| 0 <= i < rest.len() && (#[trigger] rest[i]).id == id
                    && rest[i].media_class == player_class();
                assert(nodes[i] == rest[i]);
            } else if nodes.last().media_class == player_class() {
                assert(nodes[nodes.len() - 1].id == id);
            } else {
                assert(r.contains(id));
                let i = choose|i: int| 0 <= i < rest.len() && (#[trigger] rest[i]).id == id
                    && rest[i].media_class == player_class();
                assert(nodes[i] == rest[i]);
            }
        }
        if exists|i: int|
            0 <= i < nodes.len() && (#[trigger] nodes[i]).id == id && nodes[i].media_class
                == player_class() {
            let i = choose|i: int|
                0 <= i < nodes.len() && (#[trigger] nodes[i]).id == id && nodes[i].media_class
                    == player_class();
            if i < rest.len() {
                assert(rest[i] == nodes[i]);
                assert(r.contains(id));
                let k = choose|k: int| 0 <= k < r.len() && r[k] == id;
                assert(player_ids(nodes)[k] == id);
            } else {
                let all = player_ids(nodes);
                assert(all[all.len() - 1] == id);
            }
        }
    }
}

} // verus!
