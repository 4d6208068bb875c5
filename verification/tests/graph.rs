use nodeinnet::graph::{
    edge_style, local_label_key, node_icon_key, node_look, os_icon_key, EdgeStyle, GraphPeer, GraphState, NodeLook,
    PeerLink, Placement,
};

fn peer(id: &str, online: bool) -> GraphPeer {
    GraphPeer { id: id.into(), name: format!("name-{id}"), os: "Linux".into(), is_online: online }
}

fn ids(g: &GraphState) -> Vec<String> {
    let mut v: Vec<String> = g.nodes.iter().map(|n| n.id.clone()).collect();
    v.sort();
    v
}

#[test]
fn peers_become_nodes_around_this_device() {
    let mut g = GraphState::new(true, false, true);
    g.update_peers(&vec![peer("me", true), peer("a", true), peer("b", false)], "me", "This PC", "linux");
    assert_eq!(ids(&g), vec!["a", "b", "me"]);
    let a = g.nodes.iter().find(|n| n.id == "a").unwrap();
    assert_eq!(a.placement, Placement::Ring { index: 1, count: 3 });
    let me = g.nodes.iter().find(|n| n.id == "me").unwrap();
    assert!(me.is_local && me.is_online);
    assert_eq!(me.name, "This PC");
    assert_eq!(me.placement, Placement::Center);
}

#[test]
fn departed_peers_go_and_known_ones_keep_their_place() {
    let mut g = GraphState::new(false, false, true);
    g.update_peers(&vec![peer("a", true), peer("b", true)], "me", "L", "linux");
    g.update_peers(&vec![peer("b", false), peer("c", true)], "me", "L", "linux");
    assert_eq!(ids(&g), vec!["b", "c", "me"]);
    let b = g.nodes.iter().find(|n| n.id == "b").unwrap();
    assert!(!b.is_online);
    assert_eq!(b.placement, Placement::Ring { index: 1, count: 2 });
}

#[test]
fn hidden_local_node_is_removed() {
    let mut g = GraphState::new(false, false, false);
    g.update_peers(&vec![peer("me", true), peer("a", true)], "me", "L", "linux");
    assert_eq!(ids(&g), vec!["a"]);
}

#[test]
fn no_peers_leaves_only_this_device() {
    let mut g = GraphState::new(false, false, true);
    g.update_peers(&vec![], "me", "L", "linux");
    assert_eq!(ids(&g), vec!["me"]);
}

#[test]
fn links_colour_known_nodes() {
    let mut g = GraphState::new(false, false, true);
    g.update_peers(&vec![peer("a", true)], "me", "L", "linux");
    g.update_links(&vec![("a".into(), PeerLink::Connecting), ("zz".into(), PeerLink::Failed), ("a".into(), PeerLink::Connected)]);
    let a = g.nodes.iter().find(|n| n.id == "a").unwrap();
    assert_eq!(a.link, Some(PeerLink::Connected));
    assert_eq!(edge_style(a.is_online, a.link), EdgeStyle::Connected);
    assert_eq!(edge_style(false, Some(PeerLink::Connected)), EdgeStyle::Offline);
    assert_eq!(edge_style(true, None), EdgeStyle::Idle);
}

#[test]
fn only_online_remote_nodes_open_on_press() {
    let mut g = GraphState::new(true, false, true);
    g.update_peers(&vec![peer("a", true), peer("b", false)], "me", "L", "linux");
    assert!(g.press("a"));
    assert!(!g.press("b"));
    assert!(!g.press("me"));
    assert!(!g.press("unknown"));
    let mut quiet = GraphState::new(false, false, true);
    quiet.update_peers(&vec![peer("a", true)], "me", "L", "linux");
    assert!(!quiet.press("a"));
}

#[test]
fn node_icons_and_looks() {
    assert_eq!(os_icon_key("windows"), "os-win");
    assert_eq!(os_icon_key("plan9"), "os-console");
    assert_eq!(node_icon_key(false, "MacOS", "linux"), "os-mac");
    assert_eq!(node_icon_key(true, "MacOS", "linux"), "os-linux");
    assert_eq!(node_look(true, true, true), (NodeLook::Full, true));
    assert_eq!(node_look(true, false, false), (NodeLook::Dimmed, false));
    assert_eq!(node_look(false, false, true), (NodeLook::Faded, false));
    assert_eq!(local_label_key("ios"), "graph.this_ios");
    assert_eq!(local_label_key("haiku"), "graph.this_device");
}
