use peer_workspace::proxy::{ConnectionHandler, ProxyConfig};
use peer_workspace::registry::{ProxyState, RegistryError};
use peer_workspace::wire::{AuthRole, PeerToProxy, ProxyToPeer};

fn server_and_client(state: &mut ProxyState, server: u128, client: u128, name: &str) {
    assert!(state.attach(server));
    assert!(state.attach(client));
    assert_eq!(state.set_role(server, AuthRole::Server), Ok(()));
    assert_eq!(state.set_role(client, AuthRole::Client), Ok(()));
    assert_eq!(state.register_server(server, name.to_string(), "pw".to_string()), Ok(()));
}

#[test]
fn attach_twice_keeps_one() {
    let mut state = ProxyState::new();
    assert!(state.attach(3));
    assert!(!state.attach(3));
    assert!(state.is_attached(3));
    assert_eq!(state.role_of(3), None);
}

#[test]
fn role_is_set_once() {
    let mut state = ProxyState::new();
    assert_eq!(state.set_role(3, AuthRole::Client), Err(RegistryError::WrongRole));
    state.attach(3);
    assert_eq!(state.set_role(3, AuthRole::Client), Ok(()));
    assert_eq!(state.set_role(3, AuthRole::Server), Err(RegistryError::AlreadyAuthenticated));
    assert_eq!(state.role_of(3), Some(AuthRole::Client));
}

#[test]
fn open_session_errors() {
    let mut state = ProxyState::new();
    server_and_client(&mut state, 1, 2, "alpha");
    let alpha = "alpha".to_string();
    let beta = "beta".to_string();
    let good = "pw".to_string();
    let bad = "nope".to_string();
    assert_eq!(state.open_session(2, &beta, &good, 50), Err(RegistryError::UnknownServerName));
    assert_eq!(state.open_session(2, &alpha, &bad, 50), Err(RegistryError::InvalidServerPassword));
    assert_eq!(state.open_session(1, &alpha, &good, 50), Err(RegistryError::WrongRole));
    assert_eq!(state.open_session(2, &alpha, &good, 50), Ok(1));
    assert_eq!(state.open_session(2, &alpha, &good, 50), Err(RegistryError::SessionIdTaken));
    assert_eq!(state.register_server(2, "gamma".to_string(), good.clone()), Err(RegistryError::WrongRole));
    assert_eq!(RegistryError::UnknownServerName.reason(), "unknown server name");
    assert_eq!(RegistryError::InvalidServerPassword.reason(), "invalid server password");
    assert_eq!(RegistryError::AlreadyRegistered.reason(), "server name already registered");
}

#[test]
fn connect_errors_reach_client_only() {
    let cfg = ProxyConfig { proxy_password: "p".to_string(), turn: None };
    let mut state = ProxyState::new();
    server_and_client(&mut state, 1, 2, "alpha");
    let mut client = ConnectionHandler { conn_id: 2, phase: peer_workspace::proxy::Phase::ClientActive };
    let out = client.handle(
        &mut state,
        &cfg,
        Some(PeerToProxy::ConnectServer {
            server_name: "alpha".to_string(),
            server_password: "bad".to_string(),
            use_p2p: false,
        }),
        9,
    );
    assert_eq!(out.len(), 1);
    assert_eq!(out[0].target, 2);
    assert!(matches!(&out[0].message, ProxyToPeer::ConnectionError { reason } if reason == "invalid server password"));
    assert!(!client.is_terminal());
    let out = client.handle(
        &mut state,
        &cfg,
        Some(PeerToProxy::ConnectServer {
            server_name: "omega".to_string(),
            server_password: "pw".to_string(),
            use_p2p: false,
        }),
        9,
    );
    assert!(matches!(&out[0].message, ProxyToPeer::ConnectionError { reason } if reason == "unknown server name"));
}

#[test]
fn session_ends_stay_open() {
    let mut state = ProxyState::new();
    server_and_client(&mut state, 1, 2, "alpha");
    let name = "alpha".to_string();
    let pw = "pw".to_string();
    assert_eq!(state.open_session(2, &name, &pw, 40), Ok(1));
    assert!(state.is_attached(1) && state.is_attached(2));
    state.detach(1);
    assert_eq!(state.route(40, 2), None);
    assert!(state.is_attached(2));
}

#[test]
fn detach_notifies_each_survivor_once() {
    let mut state = ProxyState::new();
    server_and_client(&mut state, 1, 2, "alpha");
    assert!(state.attach(3));
    assert_eq!(state.set_role(3, AuthRole::Client), Ok(()));
    assert!(state.attach(4));
    assert_eq!(state.set_role(4, AuthRole::Server), Ok(()));
    assert_eq!(state.register_server(4, "beta".to_string(), "pw".to_string()), Ok(()));
    let alpha = "alpha".to_string();
    let beta = "beta".to_string();
    let pw = "pw".to_string();
    assert_eq!(state.open_session(2, &alpha, &pw, 100), Ok(1));
    assert_eq!(state.open_session(3, &alpha, &pw, 101), Ok(1));
    assert_eq!(state.open_session(2, &beta, &pw, 102), Ok(4));
    let detached = state.detach(1);
    assert_eq!(detached.servers.len(), 1);
    assert_eq!(detached.servers[0].server_name, "alpha");
    let mut notes: Vec<(u128, u128, String)> = detached
        .notices
        .iter()
        .map(|n| (n.session_id, n.target, n.reason.clone()))
        .collect();
    notes.sort();
    assert_eq!(
        notes,
        vec![
            (100, 2, "server disconnected".to_string()),
            (101, 3, "server disconnected".to_string()),
        ]
    );
    assert_eq!(state.route(102, 2), Some(4));
    assert_eq!(state.route(100, 2), None);
    // the name is free again
    assert!(state.attach(5));
    assert_eq!(state.set_role(5, AuthRole::Server), Ok(()));
    assert_eq!(state.register_server(5, "alpha".to_string(), "pw".to_string()), Ok(()));
}

#[test]
fn second_registration_of_name_refused() {
    let mut state = ProxyState::new();
    server_and_client(&mut state, 1, 2, "alpha");
    assert!(state.attach(3));
    assert_eq!(state.set_role(3, AuthRole::Server), Ok(()));
    assert_eq!(
        state.register_server(3, "alpha".to_string(), "other".to_string()),
        Err(RegistryError::AlreadyRegistered)
    );
}

#[test]
fn disconnect_twice_is_noop() {
    let cfg = ProxyConfig { proxy_password: "p".to_string(), turn: None };
    let mut state = ProxyState::new();
    server_and_client(&mut state, 1, 2, "alpha");
    let name = "alpha".to_string();
    let pw = "pw".to_string();
    assert_eq!(state.open_session(2, &name, &pw, 60), Ok(1));
    let mut client = ConnectionHandler { conn_id: 2, phase: peer_workspace::proxy::Phase::ClientActive };
    let out = client.handle(&mut state, &cfg, Some(PeerToProxy::DisconnectSession { session_id: 60 }), 0);
    assert_eq!(out.len(), 1);
    assert_eq!(out[0].target, 1);
    assert!(matches!(&out[0].message, ProxyToPeer::SessionClosed { session_id: 60, reason } if reason == "client closed session"));
    let out = client.handle(&mut state, &cfg, Some(PeerToProxy::DisconnectSession { session_id: 60 }), 0);
    assert!(out.is_empty());
    assert_eq!(state.route(60, 2), None);
}

#[test]
fn foreign_connection_cannot_use_session() {
    let cfg = ProxyConfig { proxy_password: "p".to_string(), turn: None };
    let mut state = ProxyState::new();
    server_and_client(&mut state, 1, 2, "alpha");
    assert!(state.attach(3));
    assert_eq!(state.set_role(3, AuthRole::Client), Ok(()));
    let name = "alpha".to_string();
    let pw = "pw".to_string();
    assert_eq!(state.open_session(2, &name, &pw, 70), Ok(1));
    let mut intruder = ConnectionHandler { conn_id: 3, phase: peer_workspace::proxy::Phase::ClientActive };
    let out = intruder.handle(&mut state, &cfg, Some(PeerToProxy::DisconnectSession { session_id: 70 }), 0);
    assert!(out.is_empty());
    assert_eq!(state.route(70, 2), Some(1));
    let out = intruder.handle(&mut state, &cfg, Some(PeerToProxy::RelayData { session_id: 70, payload: vec![1] }), 0);
    assert!(out.is_empty());
}

#[test]
fn via_p2p_needs_turn() {
    let cfg = ProxyConfig { proxy_password: "p".to_string(), turn: None };
    let mut state = ProxyState::new();
    server_and_client(&mut state, 1, 2, "alpha");
    let mut client = ConnectionHandler { conn_id: 2, phase: peer_workspace::proxy::Phase::ClientActive };
    let out = client.handle(
        &mut state,
        &cfg,
        Some(PeerToProxy::ConnectServer {
            server_name: "alpha".to_string(),
            server_password: "pw".to_string(),
            use_p2p: true,
        }),
        80,
    );
    assert_eq!(out.len(), 2);
    for o in &out {
        match &o.message {
            ProxyToPeer::Connected { via_p2p, turn, .. } | ProxyToPeer::PeerJoined { via_p2p, turn, .. } => {
                assert!(!via_p2p);
                assert!(turn.is_none());
            }
            other => panic!("unexpected {:?}", other),
        }
    }
}

#[test]
fn server_must_register_first() {
    let cfg = ProxyConfig { proxy_password: "p".to_string(), turn: None };
    let mut state = ProxyState::new();
    assert!(state.attach(1));
    let mut server = ConnectionHandler::new(1);
    server.handle(
        &mut state,
        &cfg,
        Some(PeerToProxy::AuthProxy { proxy_password: "p".to_string(), role: AuthRole::Server }),
        0,
    );
    let out = server.handle(&mut state, &cfg, None, 0);
    assert!(out.is_empty());
    assert!(!server.is_terminal());
    let out = server.handle(&mut state, &cfg, Some(PeerToProxy::DisconnectSession { session_id: 1 }), 0);
    assert!(matches!(&out[0].message, ProxyToPeer::ConnectionError { reason } if reason == "server must register before other actions"));
    assert!(server.is_terminal());
}

#[test]
fn handler_out_of_step_closes() {
    let cfg = ProxyConfig { proxy_password: "p".to_string(), turn: None };
    let mut state = ProxyState::new();
    let mut h = ConnectionHandler::new(8);
    let out = h.handle(&mut state, &cfg, None, 0);
    assert!(out.is_empty());
    assert!(h.is_terminal());
}

#[test]
fn accept_draws_distinct_ids() {
    let mut state = ProxyState::new();
    let a = state.accept().unwrap();
    let b = state.accept().unwrap();
    assert_ne!(a, b);
    assert!(state.is_attached(a) && state.is_attached(b));
    assert_eq!((a >> 76) & 0xF, 4);
}
