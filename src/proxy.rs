//! The proxy's handling of one connection: authenticate, then register a
//! server or operate as a client, and dispatch each message against the
//! registry. Each step returns the messages to send; the caller sends them
//! once the registry is released.
use vstd::prelude::*;
use vstd::string::{StrSliceExecFns, StringExecFns};
use crate::keyed::{keys_unique, to_map};
use crate::registry::{
    closing_notices, error_reason, notice_pairs, open_result, register_result, route_of,
    servers_owned, sessions_without, survivor, touches, Ends, Notice, ProxyState, RegistryError,
};
use crate::wire::{AuthRole, Id, PeerToProxy, ProxyToPeer, TurnCredentials};

verus! {

/// Where a connection stands in the handshake.
#[derive(Debug, Clone)]
pub enum Phase {
    /// Only `auth_proxy` is accepted.
    Unauthenticated,
    /// Authenticated as a server; only `register_server` is accepted.
    ServerUnregistered,
    /// A registered server.
    ServerActive { server_name: String },
    /// An authenticated client.
    ClientActive,
    /// The connection is to be closed; nothing more is accepted.
    Terminal,
}

/// What the proxy was started with.
#[derive(Debug, Clone)]
pub struct ProxyConfig {
    pub proxy_password: String,
    /// Present when the proxy can offer peer-to-peer through TURN.
    pub turn: Option<TurnCredentials>,
}

/// A message for the connection `target`.
#[derive(Debug, Clone)]
pub struct Outbound {
    pub target: Id,
    pub message: ProxyToPeer,
}

/// The proxy's state for one connection.
#[derive(Debug)]
pub struct ConnectionHandler {
    pub conn_id: Id,
    pub phase: Phase,
}

/// The role that the registry holds for a connection in phase `p`.
pub open spec fn phase_role(p: Phase) -> Option<AuthRole> {
    match p {
        Phase::ServerUnregistered | Phase::ServerActive { .. } => Some(AuthRole::Server),
        Phase::ClientActive => Some(AuthRole::Client),
        _ => None,
    }
}

/// The handler and the registry agree on the connection.
pub open spec fn in_step(h: ConnectionHandler, s: ProxyState) -> bool {
    &&& !(h.phase is Terminal)
    &&& s.connections().contains_key(h.conn_id)
    &&& s.connections()[h.conn_id] == phase_role(h.phase)
}

pub open spec fn same_model(a: ProxyState, b: ProxyState) -> bool {
    &&& a.connections() == b.connections()
    &&& a.servers() == b.servers()
    &&& a.sessions() == b.sessions()
}

pub open spec fn is_auth_error(o: Outbound, to: Id, reason: Seq<char>) -> bool {
    o.target == to && (o.message matches ProxyToPeer::AuthError { reason: r } && r@ == reason)
}

pub open spec fn is_connection_error(o: Outbound, to: Id, reason: Seq<char>) -> bool {
    o.target == to && (o.message matches ProxyToPeer::ConnectionError { reason: r } && r@
        == reason)
}

pub open spec fn is_session_closed(o: Outbound, to: Id, session_id: Id, reason: Seq<char>) -> bool {
    o.target == to && (o.message matches ProxyToPeer::SessionClosed { session_id: s, reason: r }
        && s == session_id && r@ == reason)
}

/// A `connected` or `peer_joined` carries TURN credentials exactly when it
/// announces peer-to-peer.
pub open spec fn turn_matches_mode(m: ProxyToPeer) -> bool {
    match m {
        ProxyToPeer::Connected { via_p2p, turn, .. } => via_p2p == turn is Some,
        ProxyToPeer::PeerJoined { via_p2p, turn, .. } => via_p2p == turn is Some,
        _ => true,
    }
}

/// Why a session ends when its connection `from`, in role `role`, asks to end it.
pub open spec fn closed_by_reason(role: AuthRole) -> Seq<char> {
    match role {
        AuthRole::Server => "server closed session"@,
        AuthRole::Client => "client closed session"@,
    }
}

/// The messages of an authenticated connection that concern a live session.
pub open spec fn session_step(
    conn: Id,
    role: AuthRole,
    old_s: ProxyState,
    new_s: ProxyState,
    msg: PeerToProxy,
    out: Seq<Outbound>,
) -> bool {
    match msg {
        PeerToProxy::DisconnectSession { session_id } => match route_of(
            old_s.sessions(),
            session_id,
            conn,
        ) {
            Some(peer) => {
                &&& new_s.sessions() == old_s.sessions().remove(session_id)
                &&& new_s.connections() == old_s.connections()
                &&& new_s.servers() == old_s.servers()
                &&& out.len() == 1
                &&& is_session_closed(out[0], peer, session_id, closed_by_reason(role))
            },
            None => same_model(old_s, new_s) && out.len() == 0,
        },
        PeerToProxy::Signal { session_id, signal } => {
            &&& same_model(old_s, new_s)
            &&& match route_of(old_s.sessions(), session_id, conn) {
                Some(peer) => out == seq![
                    Outbound {
                        target: peer,
                        message: ProxyToPeer::PeerSignal { session_id, from: role, signal },
                    },
                ],
                None => out.len() == 0,
            }
        },
        PeerToProxy::RelayData { session_id, payload } => {
            &&& same_model(old_s, new_s)
            &&& match route_of(old_s.sessions(), session_id, conn) {
                Some(peer) => out == seq![
                    Outbound { target: peer, message: ProxyToPeer::RelayData { session_id, payload } },
                ],
                None => out.len() == 0,
            }
        },
        _ => same_model(old_s, new_s) && out.len() == 0,
    }
}

/// The handshake: the first message must be `auth_proxy` with the proxy's password.
pub open spec fn auth_step(
    conn: Id,
    cfg: ProxyConfig,
    old_s: ProxyState,
    new_s: ProxyState,
    msg: Option<PeerToProxy>,
    phase: Phase,
    out: Seq<Outbound>,
) -> bool {
    match msg {
        Some(PeerToProxy::AuthProxy { proxy_password, role }) => if proxy_password@
            == cfg.proxy_password@ {
            &&& new_s.connections() == old_s.connections().insert(conn, Some(role))
            &&& new_s.servers() == old_s.servers()
            &&& new_s.sessions() == old_s.sessions()
            &&& phase == (if role == AuthRole::Server {
                Phase::ServerUnregistered
            } else {
                Phase::ClientActive
            })
            &&& out == seq![Outbound { target: conn, message: ProxyToPeer::AuthOk { role } }]
        } else {
            &&& same_model(old_s, new_s)
            &&& phase is Terminal
            &&& out.len() == 1
            &&& is_auth_error(out[0], conn, "invalid proxy password"@)
        },
        _ => {
            &&& same_model(old_s, new_s)
            &&& phase is Terminal
            &&& out.len() == 1
            &&& is_auth_error(out[0], conn, "first message must be auth_proxy"@)
        },
    }
}

/// A server's first message after the handshake must register it.
pub open spec fn register_step(
    conn: Id,
    old_s: ProxyState,
    new_s: ProxyState,
    msg: Option<PeerToProxy>,
    phase: Phase,
    out: Seq<Outbound>,
) -> bool {
    match msg {
        Some(PeerToProxy::RegisterServer { server_name, server_password }) => if old_s.servers().contains_key(
            server_name@,
        ) {
            &&& same_model(old_s, new_s)
            &&& phase is Terminal
            &&& out.len() == 1
            &&& is_connection_error(out[0], conn, "server name already registered"@)
        } else {
            &&& new_s.servers() == old_s.servers().insert(server_name@, (conn, server_password@))
            &&& new_s.connections() == old_s.connections()
            &&& new_s.sessions() == old_s.sessions()
            &&& phase == Phase::ServerActive { server_name }
            &&& out == seq![
                Outbound { target: conn, message: ProxyToPeer::Registered { server_name } },
            ]
        },
        Some(_) => {
            &&& same_model(old_s, new_s)
            &&& phase is Terminal
            &&& out.len() == 1
            &&& is_connection_error(out[0], conn, "server must register before other actions"@)
        },
        None => same_model(old_s, new_s) && phase is ServerUnregistered && out.len() == 0,
    }
}

/// A client asks for a session with a server, under the new id `fresh`.
pub open spec fn connect_step(
    conn: Id,
    cfg: ProxyConfig,
    old_s: ProxyState,
    new_s: ProxyState,
    server_name: String,
    server_password: String,
    use_p2p: bool,
    fresh: Id,
    out: Seq<Outbound>,
) -> bool {
    let via_p2p = use_p2p && cfg.turn is Some;
    let turn = if via_p2p {
        cfg.turn
    } else {
        None
    };
    match open_result(
        old_s.connections(),
        old_s.servers(),
        old_s.sessions(),
        conn,
        server_name@,
        server_password@,
        fresh,
    ) {
        Ok(server) => {
            &&& new_s.sessions() == old_s.sessions().insert(fresh, (server, conn))
            &&& new_s.connections() == old_s.connections()
            &&& new_s.servers() == old_s.servers()
            &&& out == seq![
                Outbound {
                    target: conn,
                    message: ProxyToPeer::Connected {
                        session_id: fresh,
                        server_name,
                        via_p2p,
                        turn,
                    },
                },
                Outbound {
                    target: server,
                    message: ProxyToPeer::PeerJoined {
                        session_id: fresh,
                        peer_id: conn,
                        via_p2p,
                        turn,
                    },
                },
            ]
        },
        Err(e) => {
            &&& same_model(old_s, new_s)
            &&& out.len() == 1
            &&& is_connection_error(out[0], conn, error_reason(e))
        },
    }
}

/// One step of connection `h` on message `msg` (`None`: a frame that does
/// not parse), with `fresh` as the id of a session that it may open.
pub open spec fn handle_post(
    h: ConnectionHandler,
    old_s: ProxyState,
    cfg: ProxyConfig,
    msg: Option<PeerToProxy>,
    fresh: Id,
    new_h: ConnectionHandler,
    new_s: ProxyState,
    out: Seq<Outbound>,
) -> bool {
    &&& new_s.wf()
    &&& new_h.conn_id == h.conn_id
    &&& forall|i: int| 0 <= i < out.len() ==> turn_matches_mode(#[trigger] out[i].message)
    &&& if !in_step(h, old_s) {
        new_h.phase is Terminal && same_model(old_s, new_s) && out.len() == 0
    } else {
        match h.phase {
            Phase::Unauthenticated => auth_step(h.conn_id, cfg, old_s, new_s, msg, new_h.phase, out),
            Phase::ServerUnregistered => register_step(h.conn_id, old_s, new_s, msg, new_h.phase, out),
            Phase::ServerActive { .. } => {
                &&& new_h.phase == h.phase
                &&& match msg {
                    Some(m) => session_step(h.conn_id, AuthRole::Server, old_s, new_s, m, out),
                    None => same_model(old_s, new_s) && out.len() == 0,
                }
            },
            _ => {
                &&& new_h.phase is ClientActive
                &&& match msg {
                    Some(PeerToProxy::ConnectServer { server_name, server_password, use_p2p }) =>
                        connect_step(
                        h.conn_id,
                        cfg,
                        old_s,
                        new_s,
                        server_name,
                        server_password,
                        use_p2p,
                        fresh,
                        out,
                    ),
                    Some(m) => session_step(h.conn_id, AuthRole::Client, old_s, new_s, m, out),
                    None => same_model(old_s, new_s) && out.len() == 0,
                }
            },
        }
    }
}

impl ConnectionHandler {
    /// The handler of a connection just accepted.
    pub fn new(conn_id: Id) -> (r: ConnectionHandler)
        ensures
            r.conn_id == conn_id,
            r.phase is Unauthenticated,
    {
        ConnectionHandler { conn_id, phase: Phase::Unauthenticated }
    }

    /// Whether the connection is to be closed.
    pub fn is_terminal(&self) -> (r: bool)
        ensures
            r == self.phase is Terminal,
    {
        matches!(self.phase, Phase::Terminal)
    }

    /// Relays `disconnect_session`, `signal` and `relay_data` of the
    /// connection, in role `role`, to the other end of the session.
    fn session_message(&self, state: &mut ProxyState, role: AuthRole, msg: PeerToProxy) -> (r: Vec<
        Outbound,
    >)
        requires
            old(state).wf(),
        ensures
            final(state).wf(),
            session_step(self.conn_id, role, *old(state), *final(state), msg, r@),
    {
        match msg {
            PeerToProxy::DisconnectSession { session_id } => {
                match state.route(session_id, self.conn_id) {
                    Some(peer) => {
                        state.close_session(session_id);
                        let reason = match role {
                            AuthRole::Server => "server closed session".to_string(),
                            AuthRole::Client => "client closed session".to_string(),
                        };
                        let mut out = Vec::new();
                        out.push(
                            Outbound {
                                target: peer,
                                message: ProxyToPeer::SessionClosed { session_id, reason },
                            },
                        );
                        out
                    },
                    None => Vec::new(),
                }
            },
            PeerToProxy::Signal { session_id, signal } => {
                match state.route(session_id, self.conn_id) {
                    Some(peer) => {
                        let mut out = Vec::new();
                        out.push(
                            Outbound {
                                target: peer,
                                message: ProxyToPeer::PeerSignal { session_id, from: role, signal },
                            },
                        );
                        proof {
                            assert(out@ =~= seq![
                                Outbound {
                                    target: peer,
                                    message: ProxyToPeer::PeerSignal {
                                        session_id,
                                        from: role,
                                        signal,
                                    },
                                },
                            ]);
                        }
                        out
                    },
                    None => Vec::new(),
                }
            },
            PeerToProxy::RelayData { session_id, payload } => {
                match state.route(session_id, self.conn_id) {
                    Some(peer) => {
                        let mut out = Vec::new();
                        out.push(
                            Outbound {
                                target: peer,
                                message: ProxyToPeer::RelayData { session_id, payload },
                            },
                        );
                        proof {
                            assert(out@ =~= seq![
                                Outbound {
                                    target: peer,
                                    message: ProxyToPeer::RelayData { session_id, payload },
                                },
                            ]);
                        }
                        out
                    },
                    None => Vec::new(),
                }
            },
            _ => Vec::new(),
        }
    }
}


impl ConnectionHandler {
    /// One step of the connection on message `msg` (`None`: a frame that does
    /// not parse). A session that it opens gets the id `fresh_session_id`.
    pub fn handle(
        &mut self,
        state: &mut ProxyState,
        cfg: &ProxyConfig,
        msg: Option<PeerToProxy>,
        fresh_session_id: Id,
    ) -> (r: Vec<Outbound>)
        requires
            old(state).wf(),
        ensures
            handle_post(
                *old(self),
                *old(state),
                *cfg,
                msg,
                fresh_session_id,
                *final(self),
                *final(state),
                r@,
            ),
    {
        let role = state.role_of(self.conn_id);
        let attached = state.is_attached(self.conn_id);
        let expected = match self.phase {
            Phase::ServerUnregistered | Phase::ServerActive { .. } => Some(AuthRole::Server),
            Phase::ClientActive => Some(AuthRole::Client),
            _ => None,
        };
        if !attached || role != expected || self.is_terminal() {
            self.phase = Phase::Terminal;
            return Vec::new();
        }
        match self.phase {
            Phase::Unauthenticated => self.authenticate(state, cfg, msg),
            Phase::ServerUnregistered => self.register(state, msg),
            Phase::ServerActive { .. } => match msg {
                Some(m) => {
                    let out = self.session_message(state, AuthRole::Server, m);
                    proof {
                        assert forall|i: int| 0 <= i < out@.len() implies turn_matches_mode(
                            #[trigger] out@[i].message,
                        ) by {}
                    }
                    out
                },
                None => Vec::new(),
            },
            _ => match msg {
                Some(PeerToProxy::ConnectServer { server_name, server_password, use_p2p }) => {
                    self.connect(state, cfg, server_name, server_password, use_p2p, fresh_session_id)
                },
                Some(m) => {
                    let out = self.session_message(state, AuthRole::Client, m);
                    proof {
                        assert forall|i: int| 0 <= i < out@.len() implies turn_matches_mode(
                            #[trigger] out@[i].message,
                        ) by {}
                    }
                    out
                },
                None => Vec::new(),
            },
        }
    }

    fn authenticate(&mut self, state: &mut ProxyState, cfg: &ProxyConfig, msg: Option<PeerToProxy>) -> (r:
        Vec<Outbound>)
        requires
            old(state).wf(),
            in_step(*old(self), *old(state)),
            old(self).phase is Unauthenticated,
        ensures
            final(state).wf(),
            final(self).conn_id == old(self).conn_id,
            auth_step(old(self).conn_id, *cfg, *old(state), *final(state), msg, final(self).phase, r@),
            forall|i: int| 0 <= i < r@.len() ==> turn_matches_mode(#[trigger] r@[i].message),
    {
        let mut out = Vec::new();
        match msg {
            Some(PeerToProxy::AuthProxy { proxy_password, role }) => {
                if proxy_password == cfg.proxy_password {
                    let set = state.set_role(self.conn_id, role);
                    self.phase = match role {
                        AuthRole::Server => Phase::ServerUnregistered,
                        AuthRole::Client => Phase::ClientActive,
                    };
                    out.push(Outbound { target: self.conn_id, message: ProxyToPeer::AuthOk { role } });
                    proof {
                        assert(out@ =~= seq![
                            Outbound { target: self.conn_id, message: ProxyToPeer::AuthOk { role } },
                        ]);
                    }
                } else {
                    self.phase = Phase::Terminal;
                    out.push(
                        Outbound {
                            target: self.conn_id,
                            message: ProxyToPeer::AuthError {
                                reason: "invalid proxy password".to_string(),
                            },
                        },
                    );
                }
            },
            _ => {
                self.phase = Phase::Terminal;
                out.push(
                    Outbound {
                        target: self.conn_id,
                        message: ProxyToPeer::AuthError {
                            reason: "first message must be auth_proxy".to_string(),
                        },
                    },
                );
            },
        }
        out
    }

    fn register(&mut self, state: &mut ProxyState, msg: Option<PeerToProxy>) -> (r: Vec<Outbound>)
        requires
            old(state).wf(),
            in_step(*old(self), *old(state)),
            old(self).phase is ServerUnregistered,
        ensures
            final(state).wf(),
            final(self).conn_id == old(self).conn_id,
            register_step(old(self).conn_id, *old(state), *final(state), msg, final(self).phase, r@),
            forall|i: int| 0 <= i < r@.len() ==> turn_matches_mode(#[trigger] r@[i].message),
    {
        let mut out = Vec::new();
        match msg {
            Some(PeerToProxy::RegisterServer { server_name, server_password }) => {
                let name_for_phase = server_name.clone();
                let name_for_reply = server_name.clone();
                match state.register_server(self.conn_id, server_name, server_password) {
                    Ok(()) => {
                        self.phase = Phase::ServerActive { server_name: name_for_phase };
                        out.push(
                            Outbound {
                                target: self.conn_id,
                                message: ProxyToPeer::Registered { server_name: name_for_reply },
                            },
                        );
                        proof {
                            assert(out@ =~= seq![
                                Outbound {
                                    target: self.conn_id,
                                    message: ProxyToPeer::Registered { server_name: name_for_reply },
                                },
                            ]);
                        }
                    },
                    Err(e) => {
                        self.phase = Phase::Terminal;
                        out.push(
                            Outbound {
                                target: self.conn_id,
                                message: ProxyToPeer::ConnectionError { reason: e.reason() },
                            },
                        );
                    },
                }
            },
            Some(_) => {
                self.phase = Phase::Terminal;
                out.push(
                    Outbound {
                        target: self.conn_id,
                        message: ProxyToPeer::ConnectionError {
                            reason: "server must register before other actions".to_string(),
                        },
                    },
                );
            },
            None => {},
        }
        out
    }

    fn connect(
        &mut self,
        state: &mut ProxyState,
        cfg: &ProxyConfig,
        server_name: String,
        server_password: String,
        use_p2p: bool,
        fresh: Id,
    ) -> (r: Vec<Outbound>)
        requires
            old(state).wf(),
        ensures
            final(state).wf(),
            *final(self) == *old(self),
            connect_step(
                old(self).conn_id,
                *cfg,
                *old(state),
                *final(state),
                server_name,
                server_password,
                use_p2p,
                fresh,
                r@,
            ),
            forall|i: int| 0 <= i < r@.len() ==> turn_matches_mode(#[trigger] r@[i].message),
    {
        let mut out = Vec::new();
        match state.open_session(self.conn_id, &server_name, &server_password, fresh) {
            Ok(server) => {
                let via_p2p = use_p2p && cfg.turn.is_some();
                let turn_client = if via_p2p {
                    match &cfg.turn {
                        Some(t) => Some(t.duplicate()),
                        None => None,
                    }
                } else {
                    None
                };
                let turn_server = if via_p2p {
                    match &cfg.turn {
                        Some(t) => Some(t.duplicate()),
                        None => None,
                    }
                } else {
                    None
                };
                let connected = Outbound {
                    target: self.conn_id,
                    message: ProxyToPeer::Connected {
                        session_id: fresh,
                        server_name,
                        via_p2p,
                        turn: turn_client,
                    },
                };
                let joined = Outbound {
                    target: server,
                    message: ProxyToPeer::PeerJoined {
                        session_id: fresh,
                        peer_id: self.conn_id,
                        via_p2p,
                        turn: turn_server,
                    },
                };
                out.push(connected);
                out.push(joined);
                proof {
                    assert(out@ =~= seq![connected, joined]);
                }
            },
            Err(e) => {
                out.push(
                    Outbound {
                        target: self.conn_id,
                        message: ProxyToPeer::ConnectionError { reason: e.reason() },
                    },
                );
            },
        }
        out
    }
}


/// The messages that tell each surviving peer that its session closed.
pub open spec fn notices_as_messages(notices: Seq<Notice>, out: Seq<Outbound>) -> bool {
    &&& out.len() == notices.len()
    &&& forall|i: int|
        0 <= i < out.len() ==> is_session_closed(
            #[trigger] out[i],
            notices[i].target,
            notices[i].session_id,
            notices[i].reason@,
        )
}

impl ConnectionHandler {
    /// The end of the connection: the registry forgets it, its servers and
    /// its sessions, and each surviving peer of those sessions is told.
    pub fn close(&mut self, state: &mut ProxyState) -> (r: Vec<Outbound>)
        requires
            old(state).wf(),
        ensures
            final(state).wf(),
            final(self).conn_id == old(self).conn_id,
            final(self).phase is Terminal,
            final(state).connections() == old(state).connections().remove(old(self).conn_id),
            final(state).sessions() == sessions_without(old(state).sessions(), old(self).conn_id),
            final(state).servers() == servers_owned(old(state).servers(), old(self).conn_id, false),
            exists|notices: Seq<Notice>|
                {
                    &&& keys_unique(notice_pairs(notices))
                    &&& to_map(notice_pairs(notices)) == closing_notices(
                        old(state).sessions(),
                        old(self).conn_id,
                    )
                    &&& notices_as_messages(notices, r@)
                },
    {
        self.phase = Phase::Terminal;
        let detached = state.detach(self.conn_id);
        let notices = detached.notices;
        let mut out: Vec<Outbound> = Vec::new();
        let mut i: usize = 0;
        while i < notices.len()
            invariant
                i <= notices@.len(),
                out@.len() == i,
                forall|j: int|
                    0 <= j < i ==> is_session_closed(
                        #[trigger] out@[j],
                        notices@[j].target,
                        notices@[j].session_id,
                        notices@[j].reason@,
                    ),
            decreases notices@.len() - i,
        {
            let n = &notices[i];
            out.push(
                Outbound {
                    target: n.target,
                    message: ProxyToPeer::SessionClosed {
                        session_id: n.session_id,
                        reason: n.reason.clone(),
                    },
                },
            );
            i = i + 1;
        }
        proof {
            assert(notices_as_messages(notices@, out@));
        }
        out
    }

    /// One step of the connection, as `handle`, with a freshly drawn id for a
    /// session that it may open.
    pub fn handle_message(&mut self, state: &mut ProxyState, cfg: &ProxyConfig, msg: Option<
        PeerToProxy,
    >) -> (r: Vec<Outbound>)
        requires
            old(state).wf(),
        ensures
            exists|fresh: Id|
                handle_post(
                    *old(self),
                    *old(state),
                    *cfg,
                    msg,
                    fresh,
                    *final(self),
                    *final(state),
                    r@,
                ),
    {
        let fresh = crate::ids::new_id();
        self.handle(state, cfg, msg, fresh)
    }
}

/// In a well-formed registry, both connections of every session are open.
pub proof fn lemma_sessions_have_open_ends(s: ProxyState)
    requires
        s.wf(),
    ensures
        forall|sid: Id| #[trigger]
            s.sessions().contains_key(sid) ==> s.connections().contains_key(s.sessions()[sid].0)
                && s.connections().contains_key(s.sessions()[sid].1),
{
}

/// Detaching connection `c` leaves no session that involves `c`, and for
/// each session that involved it there is exactly one notice, keyed by the
/// session id, addressed to the session's other connection, which is not `c`
/// and is still open.
pub proof fn lemma_detach_cascade(
    conns: Map<Id, Option<AuthRole>>,
    sessions: Map<Id, Ends>,
    c: Id,
    notices: Seq<Notice>,
)
    requires
        forall|sid: Id| #[trigger]
            sessions.contains_key(sid) ==> conns.contains_key(sessions[sid].0) && conns[sessions[sid].0]
                == Some(AuthRole::Server) && conns.contains_key(sessions[sid].1)
                && conns[sessions[sid].1] == Some(AuthRole::Client),
        keys_unique(notice_pairs(notices)),
        to_map(notice_pairs(notices)) == closing_notices(sessions, c),
    ensures
        forall|sid: Id| #[trigger]
            sessions_without(sessions, c).contains_key(sid) ==> !touches(
                sessions_without(sessions, c)[sid],
                c,
            ),
        forall|sid: Id|
            sessions.contains_key(sid) && touches(sessions[sid], c) ==> !sessions_without(
                sessions,
                c,
            ).contains_key(sid) && #[trigger] to_map(notice_pairs(notices)).contains_key(sid),
        forall|i: int, j: int|
            0 <= i < notices.len() && 0 <= j < notices.len() && i != j ==> notices[i].session_id
                != notices[j].session_id,
        forall|sid: Id| #[trigger]
            to_map(notice_pairs(notices)).contains_key(sid) ==> {
                &&& to_map(notice_pairs(notices))[sid].0 == survivor(sessions[sid], c)
                &&& survivor(sessions[sid], c) != c
                &&& conns.contains_key(survivor(sessions[sid], c))
            },
{
    assert forall|i: int, j: int|
        0 <= i < notices.len() && 0 <= j < notices.len() && i != j implies notices[i].session_id
        != notices[j].session_id by {
        assert(notice_pairs(notices)[i].0 == notices[i].session_id);
        assert(notice_pairs(notices)[j].0 == notices[j].session_id);
    }
}

/// Of two registrations of one name, at most one is admitted; when the name
/// is free and both connections are open servers, exactly one is, and the
/// other gets `AlreadyRegistered`.
pub proof fn lemma_one_registration_per_name(
    conns: Map<Id, Option<AuthRole>>,
    servers: Map<Seq<char>, (Id, Seq<char>)>,
    c1: Id,
    c2: Id,
    name: Seq<char>,
    password: Seq<char>,
)
    ensures
        ({
            let first = register_result(conns, servers, c1, name);
            let after = if first is Ok {
                servers.insert(name, (c1, password))
            } else {
                servers
            };
            let second = register_result(conns, after, c2, name);
            &&& !(first is Ok && second is Ok)
            &&& (!servers.contains_key(name) && conns.contains_key(c1) && conns[c1] == Some(
                AuthRole::Server,
            ) && conns.contains_key(c2) && conns[c2] == Some(AuthRole::Server)) ==> first is Ok
                && second == Err::<(), RegistryError>(RegistryError::AlreadyRegistered)
        }),
{
}

/// Asking twice to end the same session from the same connection: the
/// second request changes nothing and sends nothing.
pub proof fn lemma_disconnect_idempotent(
    conn: Id,
    role: AuthRole,
    session_id: Id,
    s0: ProxyState,
    s1: ProxyState,
    s2: ProxyState,
    out1: Seq<Outbound>,
    out2: Seq<Outbound>,
)
    requires
        session_step(conn, role, s0, s1, PeerToProxy::DisconnectSession { session_id }, out1),
        session_step(conn, role, s1, s2, PeerToProxy::DisconnectSession { session_id }, out2),
    ensures
        same_model(s1, s2),
        out2.len() == 0,
{
    if route_of(s0.sessions(), session_id, conn) is Some {
        assert(!s1.sessions().contains_key(session_id));
    }
}

/// The decimal digit `d`.
pub open spec fn digit_char(d: nat) -> char {
    if d == 0 {
        '0'
    } else if d == 1 {
        '1'
    } else if d == 2 {
        '2'
    } else if d == 3 {
        '3'
    } else if d == 4 {
        '4'
    } else if d == 5 {
        '5'
    } else if d == 6 {
        '6'
    } else if d == 7 {
        '7'
    } else if d == 8 {
        '8'
    } else {
        '9'
    }
}

/// `n` written in decimal, without leading zeros.
pub open spec fn decimal(n: nat) -> Seq<char>
    decreases n,
{
    if n < 10 {
        seq![digit_char(n)]
    } else {
        decimal(n / 10).push(digit_char(n % 10))
    }
}

pub open spec fn has_prefix(s: Seq<char>, p: Seq<char>) -> bool {
    p.len() <= s.len() && s.subrange(0, p.len() as int) == p
}

/// The TURN URL that the proxy advertises for the server `url`: a URL with
/// the `turn:` or `turns:` scheme is kept; a bare host becomes
/// `turn:<host>:<port>`.
pub open spec fn turn_url_of(url: Seq<char>, port: nat) -> Seq<char> {
    if has_prefix(url, seq!['t', 'u', 'r', 'n', ':']) || has_prefix(
        url,
        seq!['t', 'u', 'r', 'n', 's', ':'],
    ) {
        url
    } else {
        seq!['t', 'u', 'r', 'n', ':'] + url + seq![':'] + decimal(port)
    }
}

fn digit_string(d: u16) -> (r: String)
    requires
        d < 10,
    ensures
        r@ == seq![digit_char(d as nat)],
{
    proof {
        reveal_strlit("0");
        reveal_strlit("1");
        reveal_strlit("2");
        reveal_strlit("3");
        reveal_strlit("4");
        reveal_strlit("5");
        reveal_strlit("6");
        reveal_strlit("7");
        reveal_strlit("8");
        reveal_strlit("9");
    }
    let r = if d == 0 {
        "0".to_string()
    } else if d == 1 {
        "1".to_string()
    } else if d == 2 {
        "2".to_string()
    } else if d == 3 {
        "3".to_string()
    } else if d == 4 {
        "4".to_string()
    } else if d == 5 {
        "5".to_string()
    } else if d == 6 {
        "6".to_string()
    } else if d == 7 {
        "7".to_string()
    } else if d == 8 {
        "8".to_string()
    } else {
        "9".to_string()
    };
    proof {
        assert(r@ =~= seq![digit_char(d as nat)]);
    }
    r
}

/// `n` in decimal.
pub fn decimal_string(n: u16) -> (r: String)
    ensures
        r@ == decimal(n as nat),
    decreases n,
{
    if n < 10 {
        digit_string(n)
    } else {
        let mut s = decimal_string(n / 10);
        let d = digit_string(n % 10);
        s.append(d.as_str());
        proof {
            assert(s@ =~= decimal((n / 10) as nat).push(digit_char((n % 10) as nat)));
        }
        s
    }
}

fn starts_with_chars(s: &str, p: &[char]) -> (r: bool)
    ensures
        r == has_prefix(s@, p@),
{
    let n = s.unicode_len();
    if p.len() > n {
        return false;
    }
    let mut i: usize = 0;
    while i < p.len()
        invariant
            n == s@.len(),
            p@.len() <= n,
            i <= p@.len(),
            forall|j: int| 0 <= j < i ==> s@[j] == p@[j],
        decreases p@.len() - i,
    {
        if s.get_char(i) != p[i] {
            proof {
                assert(s@.subrange(0, p@.len() as int)[i as int] != p@[i as int]);
            }
            return false;
        }
        i = i + 1;
    }
    proof {
        assert(s@.subrange(0, p@.len() as int) =~= p@);
    }
    true
}

/// The TURN URL advertised for `url` with the default port `port`.
pub fn turn_url(url: &str, port: u16) -> (r: String)
    ensures
        r@ == turn_url_of(url@, port as nat),
{
    let turn = ['t', 'u', 'r', 'n', ':'];
    let turns = ['t', 'u', 'r', 'n', 's', ':'];
    proof {
        assert(turn@ =~= seq!['t', 'u', 'r', 'n', ':']);
        assert(turns@ =~= seq!['t', 'u', 'r', 'n', 's', ':']);
    }
    if starts_with_chars(url, turn.as_slice()) || starts_with_chars(url, turns.as_slice()) {
        return url.to_string();
    }
    proof {
        reveal_strlit("turn:");
        reveal_strlit(":");
    }
    let mut r = "turn:".to_string();
    r.append(url);
    r.append(":");
    let digits = decimal_string(port);
    r.append(digits.as_str());
    proof {
        assert(r@ =~= seq!['t', 'u', 'r', 'n', ':'] + url@ + seq![':'] + decimal(port as nat));
    }
    r
}

} // verus!
