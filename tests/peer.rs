use peer_workspace::listing::{listed_before_keys, sort_entries};
use peer_workspace::project::{
    default_connection_form_addr, display_name_for_path, display_name_or_path, is_text_extension,
    is_text_file,
};
use peer_workspace::rpc::{combine_output, list_roots};
use peer_workspace::transport::{ClientTransport, PeerAction, Route};
use peer_workspace::wire::{AuthRole, DirectoryEntry, PeerToProxy, ProxyToPeer, SignalPayload, TurnCredentials};
use peer_workspace::workspace::tree_from_entry;

fn turn() -> TurnCredentials {
    TurnCredentials { url: "turn:x:3478".to_string(), username: "u".to_string(), password: "w".to_string() }
}

#[test]
fn client_without_session_drops() {
    let t = ClientTransport::new();
    assert!(matches!(t.route_outbound(vec![1]), Route::Drop));
}

#[test]
fn client_relays_until_channel_opens() {
    let mut t = ClientTransport::new();
    let acts = t.on_proxy_message(ProxyToPeer::Connected {
        session_id: 3,
        server_name: "alpha".to_string(),
        via_p2p: true,
        turn: Some(turn()),
    });
    assert_eq!(acts.len(), 2);
    assert!(matches!(&acts[0], PeerAction::Transport { message } if message == "Attempting P2P via TURN"));
    assert!(matches!(&acts[1], PeerAction::StartOffer { session_id: 3, turn } if turn.url == "turn:x:3478"));
    match t.route_outbound(vec![7, 8]) {
        Route::Relay { message: PeerToProxy::RelayData { session_id, payload } } => {
            assert_eq!(session_id, 3);
            assert_eq!(payload, vec![7, 8]);
        }
        other => panic!("unexpected {:?}", other),
    }
    let a = t.channel_opened();
    assert!(matches!(&a, PeerAction::Transport { message } if message == "P2P data channel"));
    assert!(matches!(t.route_outbound(vec![7]), Route::DataChannel { bytes } if bytes == vec![7]));
    let a = t.channel_closed();
    assert!(matches!(&a, PeerAction::Transport { message } if message == "WebSocket relay"));
    assert!(matches!(t.route_outbound(vec![7]), Route::Relay { .. }));
    assert_eq!(t.active_session, Some(3));
}

#[test]
fn client_relay_only_without_turn() {
    let mut t = ClientTransport::new();
    let acts = t.on_proxy_message(ProxyToPeer::Connected {
        session_id: 3,
        server_name: "alpha".to_string(),
        via_p2p: false,
        turn: None,
    });
    assert_eq!(acts.len(), 1);
    assert!(matches!(&acts[0], PeerAction::Transport { message } if message == "WebSocket relay"));
    assert!(!t.has_peer_connection);
}

#[test]
fn client_applies_answer_and_ignores_others() {
    let mut t = ClientTransport::new();
    t.on_proxy_message(ProxyToPeer::Connected {
        session_id: 3,
        server_name: "alpha".to_string(),
        via_p2p: true,
        turn: Some(turn()),
    });
    let acts = t.on_proxy_message(ProxyToPeer::PeerSignal {
        session_id: 3,
        from: AuthRole::Server,
        signal: SignalPayload::SdpAnswer { sdp: "ans".to_string() },
    });
    assert!(matches!(&acts[0], PeerAction::ApplyAnswer { session_id: 3, sdp } if sdp == "ans"));
    let stray = t.on_proxy_message(ProxyToPeer::PeerSignal {
        session_id: 3,
        from: AuthRole::Server,
        signal: SignalPayload::SdpOffer { sdp: "offer".to_string() },
    });
    assert!(stray.is_empty());
    let other = t.on_proxy_message(ProxyToPeer::RelayData { session_id: 4, payload: vec![1] });
    assert!(other.is_empty());
}

#[test]
fn client_teardown_on_session_closed() {
    let mut t = ClientTransport::new();
    t.on_proxy_message(ProxyToPeer::Connected {
        session_id: 3,
        server_name: "alpha".to_string(),
        via_p2p: true,
        turn: Some(turn()),
    });
    t.channel_opened();
    let acts = t.on_proxy_message(ProxyToPeer::SessionClosed { session_id: 3, reason: "server disconnected".to_string() });
    assert_eq!(acts.len(), 2);
    assert!(matches!(&acts[0], PeerAction::ClosePeerConnection { session_id: 3 }));
    assert!(matches!(&acts[1], PeerAction::Closed { reason } if reason == "server disconnected"));
    assert_eq!(t.active_session, None);
    assert!(!t.p2p_ready && !t.has_data_channel && !t.has_peer_connection);
}

#[test]
fn client_disconnect_tells_proxy() {
    let mut t = ClientTransport::new();
    t.on_proxy_message(ProxyToPeer::Connected {
        session_id: 3,
        server_name: "alpha".to_string(),
        via_p2p: false,
        turn: None,
    });
    let (msg, close) = t.disconnect();
    assert!(matches!(msg, Some(PeerToProxy::DisconnectSession { session_id: 3 })));
    assert!(!close);
    let (msg, _) = t.disconnect();
    assert!(msg.is_none());
}

#[test]
fn client_reports_refusal() {
    let mut t = ClientTransport::new();
    let acts = t.on_proxy_message(ProxyToPeer::ConnectionError { reason: "unknown server name".to_string() });
    assert!(matches!(&acts[0], PeerAction::Failed { reason } if reason == "unknown server name"));
}

#[test]
fn candidate_signal_carries_fields() {
    let s = peer_workspace::transport::candidate_signal(2, "c".to_string(), None, Some(1));
    assert!(matches!(s, PeerToProxy::Signal { session_id: 2, signal: SignalPayload::IceCandidate { candidate, sdp_mid: None, sdp_mline_index: Some(1) } } if candidate == "c"));
}

#[test]
fn display_names() {
    assert_eq!(display_name_for_path("/home/me/project"), "project");
    assert_eq!(display_name_for_path("/home/me/notes.txt"), "notes.txt");
    assert_eq!(display_name_for_path("/home/me/dir/"), "dir");
    assert_eq!(display_name_for_path("/"), "/");
    assert_eq!(display_name_for_path(".."), "..");
    assert_eq!(display_name_or_path("/x", Some("y".to_string())), "y");
    assert_eq!(display_name_or_path("/x", None), "/x");
}

#[test]
fn text_files() {
    assert!(is_text_file("a/readme.txt"));
    assert!(is_text_file("script.PY"));
    assert!(is_text_file("model.m"));
    assert!(is_text_file("Upper.TxT"));
    assert!(!is_text_file("image.png"));
    assert!(!is_text_file("Makefile"));
    assert!(!is_text_file("archive.txt.gz"));
    assert!(!is_text_file(".txt"));
    assert!(is_text_file("dir.v2/notes.backup.TXT"));
    assert!(!is_text_file("notes.txt/.."));
    assert!(is_text_extension("Py"));
    assert!(!is_text_extension("pyc"));
    assert!(!is_text_extension(""));
}

#[test]
fn default_address() {
    assert_eq!(default_connection_form_addr(), "ws://127.0.0.1:9000/ws");
}

#[test]
fn command_output_text() {
    assert_eq!(combine_output("", ""), "<no output>");
    assert_eq!(combine_output("out\n", "err\n"), "out\nerr\n");
    assert_eq!(combine_output("", "err"), "err");
}

#[test]
fn roots() {
    assert_eq!(list_roots(), vec!["/".to_string()]);
}

#[test]
fn tree_entry_from_directory_entry() {
    let e = tree_from_entry(DirectoryEntry { name: "src".to_string(), path: "/p/src".to_string(), is_dir: true });
    assert_eq!(e.name, "src");
    assert_eq!(e.path, "/p/src");
    assert!(e.is_dir);
}

#[test]
fn listing_directories_first_then_name() {
    let e = |name: &str, is_dir: bool| DirectoryEntry { name: name.to_string(), path: format!("/p/{name}"), is_dir };
    let sorted = sort_entries(&vec![e("zeta.txt", false), e("Beta", true), e("alpha.py", false), e("src", true), e("Alpha.m", false)]);
    let names: Vec<&str> = sorted.iter().map(|d| d.name.as_str()).collect();
    assert_eq!(names, vec!["Beta", "src", "Alpha.m", "alpha.py", "zeta.txt"]);
    assert!(sort_entries(&Vec::new()).is_empty());
    assert!(listed_before_keys(true, "z", false, "a"));
    assert!(!listed_before_keys(false, "a", true, "z"));
    assert!(listed_before_keys(false, "abc", false, "abd"));
    assert!(listed_before_keys(false, "ab", false, "abc"));
    assert!(!listed_before_keys(false, "b", false, "abc"));
}

#[test]
fn channel_frames_join_the_session() {
    let mut t = ClientTransport::new();
    assert!(t.on_channel_frame(vec![1]).is_none());
    t.on_proxy_message(ProxyToPeer::Connected {
        session_id: 3,
        server_name: "alpha".to_string(),
        via_p2p: true,
        turn: Some(turn()),
    });
    let a = t.on_channel_frame(vec![4, 5]).unwrap();
    assert!(matches!(&a, PeerAction::Deliver { session_id: 3, payload } if payload == &vec![4, 5]));
}

#[test]
fn no_session_sends_nothing() {
    let t = ClientTransport { active_session: None, p2p_ready: true, has_data_channel: true, has_peer_connection: true };
    assert!(matches!(t.route_outbound(vec![1, 2]), Route::Drop));
}

#[test]
fn opening_frames() {
    let c = peer_workspace::project::ProjectConnection {
        name: "office".to_string(),
        proxy_addr: "ws://h/ws".to_string(),
        proxy_password: "p".to_string(),
        server_name: "alpha".to_string(),
        server_password: "s1".to_string(),
        prefer_p2p: true,
    };
    let m = peer_workspace::transport::client_opening(&c);
    assert_eq!(m.len(), 2);
    assert!(matches!(&m[0], PeerToProxy::AuthProxy { proxy_password, role: AuthRole::Client } if proxy_password == "p"));
    assert!(matches!(&m[1], PeerToProxy::ConnectServer { server_name, server_password, use_p2p: true } if server_name == "alpha" && server_password == "s1"));
    let m = peer_workspace::transport::server_opening(&"p".to_string(), &"alpha".to_string(), &"s1".to_string());
    assert!(matches!(&m[0], PeerToProxy::AuthProxy { role: AuthRole::Server, .. }));
    assert!(matches!(&m[1], PeerToProxy::RegisterServer { server_name, server_password } if server_name == "alpha" && server_password == "s1"));
}

#[test]
fn turn_urls() {
    assert_eq!(peer_workspace::proxy::turn_url("coturn", 3478), "turn:coturn:3478");
    assert_eq!(peer_workspace::proxy::turn_url("turn:relay.example:5349", 3478), "turn:relay.example:5349");
    assert_eq!(peer_workspace::proxy::turn_url("turns:relay.example", 3478), "turns:relay.example");
    assert_eq!(peer_workspace::proxy::turn_url("10.0.0.1", 0), "turn:10.0.0.1:0");
    assert_eq!(peer_workspace::proxy::decimal_string(65535), "65535");
    assert_eq!(peer_workspace::proxy::decimal_string(7), "7");
    assert_eq!(peer_workspace::proxy::decimal_string(10), "10");
}

#[test]
fn offer_for_relay_session_is_ignored() {
    let mut t = peer_workspace::transport::ServerTransport::new();
    t.on_proxy_message(ProxyToPeer::PeerJoined { session_id: 4, peer_id: 2, via_p2p: false, turn: None });
    let acts = t.on_proxy_message(ProxyToPeer::PeerSignal {
        session_id: 4,
        from: AuthRole::Client,
        signal: SignalPayload::SdpOffer { sdp: "v=0".to_string() },
    });
    assert!(acts.is_empty());
    let acts = t.on_proxy_message(ProxyToPeer::PeerSignal {
        session_id: 9,
        from: AuthRole::Client,
        signal: SignalPayload::SdpOffer { sdp: "v=0".to_string() },
    });
    assert!(acts.is_empty());
}
