use peer_workspace::proxy::{ConnectionHandler, Outbound, Phase, ProxyConfig};
use peer_workspace::registry::ProxyState;
use peer_workspace::transport::{ClientTransport, PeerAction, ServerTransport};
use peer_workspace::wire::{
    AppEnvelope, AppPayload, AuthRole, PeerToProxy, ProxyToPeer, RpcAction, RpcRequest, RpcResult,
    SignalPayload, TurnCredentials,
};

const SERVER: u128 = 11;
const CLIENT: u128 = 22;
const SESSION: u128 = 77;

fn config(turn: bool) -> ProxyConfig {
    ProxyConfig {
        proxy_password: "p".to_string(),
        turn: if turn {
            Some(TurnCredentials {
                url: "turn:coturn:3478".to_string(),
                username: "peer".to_string(),
                password: "peer-secret".to_string(),
            })
        } else {
            None
        },
    }
}

fn open(state: &mut ProxyState, id: u128) -> ConnectionHandler {
    assert!(state.attach(id));
    ConnectionHandler::new(id)
}

fn auth(state: &mut ProxyState, cfg: &ProxyConfig, h: &mut ConnectionHandler, role: AuthRole) {
    let out = h.handle(
        state,
        cfg,
        Some(PeerToProxy::AuthProxy { proxy_password: "p".to_string(), role }),
        0,
    );
    assert_eq!(out.len(), 1);
    assert!(matches!(out[0].message, ProxyToPeer::AuthOk { role: r } if r == role));
}

fn register(state: &mut ProxyState, cfg: &ProxyConfig, h: &mut ConnectionHandler, name: &str) -> Vec<Outbound> {
    h.handle(
        state,
        cfg,
        Some(PeerToProxy::RegisterServer {
            server_name: name.to_string(),
            server_password: "s1".to_string(),
        }),
        0,
    )
}

/// The registered server, the connected client and their session.
fn s2_state(turn: bool) -> (ProxyState, ProxyConfig, ConnectionHandler, ConnectionHandler, Vec<Outbound>) {
    let cfg = config(turn);
    let mut state = ProxyState::new();
    let mut server = open(&mut state, SERVER);
    auth(&mut state, &cfg, &mut server, AuthRole::Server);
    let out = register(&mut state, &cfg, &mut server, "alpha");
    assert_eq!(out.len(), 1);
    assert!(matches!(&out[0].message, ProxyToPeer::Registered { server_name } if server_name == "alpha"));
    let mut client = open(&mut state, CLIENT);
    auth(&mut state, &cfg, &mut client, AuthRole::Client);
    let out = client.handle(
        &mut state,
        &cfg,
        Some(PeerToProxy::ConnectServer {
            server_name: "alpha".to_string(),
            server_password: "s1".to_string(),
            use_p2p: true,
        }),
        SESSION,
    );
    (state, cfg, server, client, out)
}

#[test]
fn handshake_reject() {
    let cfg = config(false);
    let mut state = ProxyState::new();
    let mut h = open(&mut state, 5);
    // `{"type":"list_servers"}` is no message of the schema: it arrives unparsed.
    let out = h.handle(&mut state, &cfg, None, 0);
    assert_eq!(out.len(), 1);
    assert_eq!(out[0].target, 5);
    assert!(matches!(&out[0].message, ProxyToPeer::AuthError { reason } if reason == "first message must be auth_proxy"));
    assert!(h.is_terminal());
}

#[test]
fn handshake_wrong_password() {
    let cfg = config(false);
    let mut state = ProxyState::new();
    let mut h = open(&mut state, 5);
    let out = h.handle(
        &mut state,
        &cfg,
        Some(PeerToProxy::AuthProxy { proxy_password: "q".to_string(), role: AuthRole::Client }),
        0,
    );
    assert_eq!(out.len(), 1);
    assert!(matches!(&out[0].message, ProxyToPeer::AuthError { reason } if reason == "invalid proxy password"));
    assert!(h.is_terminal());
    assert_eq!(state.role_of(5), None);
}

#[test]
fn register_and_connect_relay() {
    let (state, _cfg, _server, _client, out) = s2_state(false);
    assert_eq!(out.len(), 2);
    assert_eq!(out[0].target, CLIENT);
    match &out[0].message {
        ProxyToPeer::Connected { session_id, server_name, via_p2p, turn } => {
            assert_eq!(*session_id, SESSION);
            assert_eq!(server_name, "alpha");
            assert!(!via_p2p);
            assert!(turn.is_none());
        }
        other => panic!("unexpected {:?}", other),
    }
    assert_eq!(out[1].target, SERVER);
    match &out[1].message {
        ProxyToPeer::PeerJoined { session_id, peer_id, via_p2p, turn } => {
            assert_eq!(*session_id, SESSION);
            assert_eq!(*peer_id, CLIENT);
            assert!(!via_p2p);
            assert!(turn.is_none());
        }
        other => panic!("unexpected {:?}", other),
    }
    assert_eq!(state.route(SESSION, CLIENT), Some(SERVER));
    assert_eq!(state.route(SESSION, SERVER), Some(CLIENT));
}

#[test]
fn relay_round_trip() {
    let (mut state, cfg, mut server, mut client, _) = s2_state(false);
    let request = RpcRequest { request_id: 900, action: RpcAction::ListRoots };
    let bytes = vec![1u8, 2, 3, 4];
    let out = client.handle(
        &mut state,
        &cfg,
        Some(PeerToProxy::RelayData { session_id: SESSION, payload: bytes.clone() }),
        0,
    );
    assert_eq!(out.len(), 1);
    assert_eq!(out[0].target, SERVER);
    match &out[0].message {
        ProxyToPeer::RelayData { session_id, payload } => {
            assert_eq!(*session_id, SESSION);
            assert_eq!(payload, &bytes);
        }
        other => panic!("unexpected {:?}", other),
    }
    let roots = peer_workspace::rpc::list_roots();
    let reply = peer_workspace::transport::respond(&request, 901, RpcResult::Roots { roots });
    let reply_bytes = vec![9u8, 8, 7];
    let out = server.handle(
        &mut state,
        &cfg,
        Some(PeerToProxy::RelayData { session_id: SESSION, payload: reply_bytes.clone() }),
        0,
    );
    assert_eq!(out.len(), 1);
    assert_eq!(out[0].target, CLIENT);
    let mut transport = ClientTransport::new();
    transport.on_proxy_message(ProxyToPeer::Connected {
        session_id: SESSION,
        server_name: "alpha".to_string(),
        via_p2p: false,
        turn: None,
    });
    let actions = transport.on_proxy_message(out[0].message.clone());
    assert_eq!(actions.len(), 1);
    assert!(matches!(&actions[0], PeerAction::Deliver { session_id, payload } if *session_id == SESSION && payload == &reply_bytes));
    let response = peer_workspace::transport::response_in(reply).unwrap();
    assert_eq!(response.request_id, 900);
    assert!(matches!(&response.result, RpcResult::Roots { roots } if roots == &vec!["/".to_string()]));
}

#[test]
fn signaling_through_turn() {
    let (mut state, cfg, mut server, mut client, out) = s2_state(true);
    match &out[0].message {
        ProxyToPeer::Connected { via_p2p, turn, .. } => {
            assert!(*via_p2p);
            let t = turn.as_ref().unwrap();
            assert_eq!(t.url, "turn:coturn:3478");
            assert_eq!(t.username, "peer");
            assert_eq!(t.password, "peer-secret");
        }
        other => panic!("unexpected {:?}", other),
    }
    assert!(matches!(&out[1].message, ProxyToPeer::PeerJoined { via_p2p: true, turn: Some(_), .. }));
    let offer = peer_workspace::transport::offer_signal(SESSION, "v=0 offer".to_string());
    let out = client.handle(&mut state, &cfg, Some(offer), 0);
    assert_eq!(out.len(), 1);
    assert_eq!(out[0].target, SERVER);
    assert!(matches!(&out[0].message, ProxyToPeer::PeerSignal { session_id, from: AuthRole::Client, signal: SignalPayload::SdpOffer { sdp } } if *session_id == SESSION && sdp == "v=0 offer"));
    let answer = peer_workspace::transport::answer_signal(SESSION, "v=0 answer".to_string());
    let out = server.handle(&mut state, &cfg, Some(answer), 0);
    assert_eq!(out.len(), 1);
    assert_eq!(out[0].target, CLIENT);
    assert!(matches!(&out[0].message, ProxyToPeer::PeerSignal { session_id, from: AuthRole::Server, signal: SignalPayload::SdpAnswer { sdp } } if *session_id == SESSION && sdp == "v=0 answer"));
}

#[test]
fn disconnect_cascade() {
    let (mut state, cfg, mut server, mut client, _) = s2_state(false);
    let out = client.close(&mut state);
    assert_eq!(out.len(), 1);
    assert_eq!(out[0].target, SERVER);
    assert!(matches!(&out[0].message, ProxyToPeer::SessionClosed { session_id, reason } if *session_id == SESSION && reason == "client disconnected"));
    let out = server.handle(
        &mut state,
        &cfg,
        Some(PeerToProxy::RelayData { session_id: SESSION, payload: vec![1] }),
        0,
    );
    assert!(out.is_empty());
    assert!(!state.is_attached(CLIENT));
}

#[test]
fn duplicate_server() {
    let cfg = config(false);
    let mut state = ProxyState::new();
    let mut first = open(&mut state, 1);
    auth(&mut state, &cfg, &mut first, AuthRole::Server);
    let out = register(&mut state, &cfg, &mut first, "alpha");
    assert!(matches!(&out[0].message, ProxyToPeer::Registered { .. }));
    let mut second = open(&mut state, 2);
    auth(&mut state, &cfg, &mut second, AuthRole::Server);
    let out = register(&mut state, &cfg, &mut second, "alpha");
    assert_eq!(out.len(), 1);
    assert_eq!(out[0].target, 2);
    assert!(matches!(&out[0].message, ProxyToPeer::ConnectionError { reason } if reason == "server name already registered"));
    assert!(second.is_terminal());
    assert!(matches!(&first.phase, Phase::ServerActive { server_name } if server_name == "alpha"));
}

#[test]
fn server_transport_answers_offer() {
    let mut t = ServerTransport::new();
    let acts = t.on_proxy_message(ProxyToPeer::PeerJoined {
        session_id: SESSION,
        peer_id: CLIENT,
        via_p2p: true,
        turn: config(true).turn,
    });
    assert!(acts.is_empty());
    let acts = t.on_proxy_message(ProxyToPeer::PeerSignal {
        session_id: SESSION,
        from: AuthRole::Client,
        signal: SignalPayload::SdpOffer { sdp: "v=0".to_string() },
    });
    assert_eq!(acts.len(), 2);
    assert!(matches!(&acts[0], PeerAction::CreatePeerConnection { session_id, turn: Some(_) } if *session_id == SESSION));
    assert!(matches!(&acts[1], PeerAction::AcceptOffer { sdp, .. } if sdp == "v=0"));
    let acts = t.on_proxy_message(ProxyToPeer::PeerSignal {
        session_id: SESSION,
        from: AuthRole::Client,
        signal: SignalPayload::IceCandidate {
            candidate: "candidate:1".to_string(),
            sdp_mid: Some("0".to_string()),
            sdp_mline_index: Some(0),
        },
    });
    assert_eq!(acts.len(), 1);
    assert!(matches!(&acts[0], PeerAction::AddCandidate { candidate, .. } if candidate == "candidate:1"));
    let acts = t.on_proxy_message(ProxyToPeer::SessionClosed {
        session_id: SESSION,
        reason: "client disconnected".to_string(),
    });
    assert_eq!(acts.len(), 2);
    assert!(matches!(&acts[0], PeerAction::ClosePeerConnection { session_id } if *session_id == SESSION));
    assert!(matches!(&acts[1], PeerAction::Closed { reason } if reason == "client disconnected"));
}

#[test]
fn envelope_request_is_read_by_server() {
    let request = RpcRequest { request_id: 5, action: RpcAction::ReadFile { path: "/etc/hosts".to_string() } };
    let env = peer_workspace::transport::request_envelope(6, request);
    assert_eq!(env.message_id, 6);
    assert!(matches!(&env.payload, AppPayload::RpcRequest(_)));
    let back = peer_workspace::transport::request_in(env).unwrap();
    assert_eq!(back.request_id, 5);
    let none = peer_workspace::transport::response_in(AppEnvelope {
        message_id: 1,
        payload: AppPayload::RpcRequest(back),
    });
    assert!(none.is_none());
}
