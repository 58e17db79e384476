//! The transport decisions of a peer. A peer talks to the proxy over a
//! WebSocket and, once negotiated, to the other peer over a data channel.
//! These functions decide what to do on each event; the host performs the
//! actions (sockets, the peer connection) and reports back.
use vstd::prelude::*;
use crate::keyed::{
    keys_unique, lemma_keys_unique_push, lemma_to_map_absent, lemma_to_map_index, lemma_to_map_push,
    lemma_to_map_remove, to_map,
};
use crate::project::ProjectConnection;
use crate::wire::{
    AppEnvelope, AppPayload, AuthRole, Id, PeerToProxy, ProxyToPeer, RpcRequest, RpcResponse,
    RpcResult, SignalPayload, TurnCredentials,
};

verus! {

/// Where an outgoing application envelope goes.
#[derive(Debug)]
pub enum Route {
    /// As a text frame on the data channel.
    DataChannel { bytes: Vec<u8> },
    /// To the proxy, which relays it to the other peer.
    Relay { message: PeerToProxy },
    /// Nowhere: there is no session.
    Drop,
}

/// What the host must do after an event.
#[derive(Debug)]
pub enum PeerAction {
    /// Tell the user which transport carries the traffic now.
    Transport { message: String },
    /// Build a peer connection with these credentials, open the ordered data
    /// channel `workspace` on it, create an offer, set it as the local
    /// description, and send it with `offer_signal`.
    StartOffer { session_id: Id, turn: TurnCredentials },
    /// Build the answering peer connection of a session.
    CreatePeerConnection { session_id: Id, turn: Option<TurnCredentials> },
    /// Set the offer as remote description, create an answer, set it as the
    /// local description, and send it with `answer_signal`.
    AcceptOffer { session_id: Id, sdp: String },
    /// Set the answer as remote description.
    ApplyAnswer { session_id: Id, sdp: String },
    /// Add a remote ICE candidate to the peer connection.
    AddCandidate {
        session_id: Id,
        candidate: String,
        sdp_mid: Option<String>,
        sdp_mline_index: Option<u16>,
    },
    /// Hand relayed bytes of an application envelope to the RPC layer.
    Deliver { session_id: Id, payload: Vec<u8> },
    /// Close the session's peer connection and drop its data channel.
    ClosePeerConnection { session_id: Id },
    /// The session ended.
    Closed { reason: String },
    /// The proxy refused us.
    Failed { reason: String },
}

pub open spec fn is_transport(a: PeerAction, message: Seq<char>) -> bool {
    a matches PeerAction::Transport { message: m } && m@ == message
}

/// The transport state of the client peer.
#[derive(Debug)]
pub struct ClientTransport {
    /// The session delivered by `connected`.
    pub active_session: Option<Id>,
    /// The data channel is open.
    pub p2p_ready: bool,
    /// A data channel has been created for the session.
    pub has_data_channel: bool,
    /// A peer connection exists for the session.
    pub has_peer_connection: bool,
}

/// Where an envelope goes from a peer in state `t`: nowhere without a
/// session; inside one, on the data channel when it is open, else through
/// the proxy.
pub open spec fn route_for(t: ClientTransport, bytes: Vec<u8>) -> Route {
    match t.active_session {
        Some(session_id) => if t.p2p_ready && t.has_data_channel {
            Route::DataChannel { bytes }
        } else {
            Route::Relay { message: PeerToProxy::RelayData { session_id, payload: bytes } }
        },
        None => Route::Drop,
    }
}

/// An open channel has been created, and a channel or a peer connection
/// exists only inside a session.
pub open spec fn client_wf(t: ClientTransport) -> bool {
    &&& t.p2p_ready ==> t.has_data_channel
    &&& t.has_data_channel ==> t.active_session is Some
    &&& t.has_peer_connection ==> t.active_session is Some
}

/// What a frame on the data channel becomes.
pub open spec fn channel_delivery(t: ClientTransport, bytes: Vec<u8>) -> Option<PeerAction> {
    match t.active_session {
        Some(session_id) => Some(PeerAction::Deliver { session_id, payload: bytes }),
        None => None,
    }
}

/// The client's state with no session and no peer connection.
pub open spec fn torn_down(t: ClientTransport) -> bool {
    &&& t.active_session is None
    &&& !t.p2p_ready
    &&& !t.has_data_channel
    &&& !t.has_peer_connection
}

/// The client's response to a message from the proxy.
pub open spec fn client_step(
    t: ClientTransport,
    msg: ProxyToPeer,
    next: ClientTransport,
    out: Seq<PeerAction>,
) -> bool {
    match msg {
        ProxyToPeer::Connected { session_id, via_p2p, turn, .. } => {
            &&& next.active_session == Some(session_id)
            &&& !next.p2p_ready
            &&& if via_p2p && turn is Some {
                &&& next.has_peer_connection
                &&& next.has_data_channel
                &&& out.len() == 2
                &&& is_transport(out[0], "Attempting P2P via TURN"@)
                &&& out[1] == PeerAction::StartOffer { session_id, turn: turn->0 }
            } else {
                &&& !next.has_peer_connection
                &&& !next.has_data_channel
                &&& out.len() == 1
                &&& is_transport(out[0], "WebSocket relay"@)
            }
        },
        ProxyToPeer::PeerSignal { session_id, from, signal } => {
            &&& next == t
            &&& if t.active_session == Some(session_id) && from == AuthRole::Server
                && t.has_peer_connection {
                match signal {
                    SignalPayload::SdpAnswer { sdp } => out == seq![
                        PeerAction::ApplyAnswer { session_id, sdp },
                    ],
                    SignalPayload::IceCandidate { candidate, sdp_mid, sdp_mline_index } => out
                        == seq![
                        PeerAction::AddCandidate {
                            session_id,
                            candidate,
                            sdp_mid,
                            sdp_mline_index,
                        },
                    ],
                    SignalPayload::SdpOffer { .. } => out.len() == 0,
                }
            } else {
                out.len() == 0
            }
        },
        ProxyToPeer::RelayData { session_id, payload } => {
            &&& next == t
            &&& if t.active_session == Some(session_id) {
                out == seq![PeerAction::Deliver { session_id, payload }]
            } else {
                out.len() == 0
            }
        },
        ProxyToPeer::SessionClosed { session_id, reason } => if t.active_session == Some(
            session_id,
        ) {
            &&& torn_down(next)
            &&& out == if t.has_peer_connection {
                seq![PeerAction::ClosePeerConnection { session_id }, PeerAction::Closed { reason }]
            } else {
                seq![PeerAction::Closed { reason }]
            }
        } else {
            next == t && out.len() == 0
        },
        ProxyToPeer::AuthError { reason } | ProxyToPeer::ConnectionError { reason } => {
            &&& next == t
            &&& out == seq![PeerAction::Failed { reason }]
        },
        _ => next == t && out.len() == 0,
    }
}

impl ClientTransport {
    pub fn new() -> (r: ClientTransport)
        ensures
            torn_down(r),
            client_wf(r),
    {
        ClientTransport {
            active_session: None,
            p2p_ready: false,
            has_data_channel: false,
            has_peer_connection: false,
        }
    }

    /// Chooses the transport of one envelope: none without a session;
    /// inside one, the data channel when it is open, else the relay.
    pub fn route_outbound(&self, bytes: Vec<u8>) -> (r: Route)
        ensures
            r == route_for(*self, bytes),
    {
        match self.active_session {
            Some(session_id) => if self.p2p_ready && self.has_data_channel {
                Route::DataChannel { bytes }
            } else {
                Route::Relay { message: PeerToProxy::RelayData { session_id, payload: bytes } }
            },
            None => Route::Drop,
        }
    }

    /// The data channel opened.
    pub fn channel_opened(&mut self) -> (r: PeerAction)
        ensures
            final(self).p2p_ready == old(self).has_data_channel,
            final(self).active_session == old(self).active_session,
            final(self).has_data_channel == old(self).has_data_channel,
            final(self).has_peer_connection == old(self).has_peer_connection,
            client_wf(*old(self)) ==> client_wf(*final(self)),
            is_transport(r, "P2P data channel"@),
    {
        self.p2p_ready = self.has_data_channel;
        PeerAction::Transport { message: "P2P data channel".to_string() }
    }

    /// The data channel closed: traffic falls back to the relay; the session
    /// stays.
    pub fn channel_closed(&mut self) -> (r: PeerAction)
        ensures
            !final(self).p2p_ready,
            !final(self).has_data_channel,
            final(self).active_session == old(self).active_session,
            final(self).has_peer_connection == old(self).has_peer_connection,
            client_wf(*old(self)) ==> client_wf(*final(self)),
            is_transport(r, "WebSocket relay"@),
    {
        self.p2p_ready = false;
        self.has_data_channel = false;
        PeerAction::Transport { message: "WebSocket relay".to_string() }
    }

    /// A frame arrived on the data channel: it goes to the RPC layer as
    /// traffic of the active session.
    pub fn on_channel_frame(&self, bytes: Vec<u8>) -> (r: Option<PeerAction>)
        ensures
            r == channel_delivery(*self, bytes),
    {
        match self.active_session {
            Some(session_id) => Some(PeerAction::Deliver { session_id, payload: bytes }),
            None => None,
        }
    }

    /// The user ends the session: the message for the proxy, if there is a
    /// session, and whether a peer connection must be closed.
    pub fn disconnect(&mut self) -> (r: (Option<PeerToProxy>, bool))
        ensures
            torn_down(*final(self)),
            client_wf(*final(self)),
            r.0 == match old(self).active_session {
                Some(session_id) => Some(PeerToProxy::DisconnectSession { session_id }),
                None => None,
            },
            r.1 == old(self).has_peer_connection,
    {
        let msg = match self.active_session {
            Some(session_id) => Some(PeerToProxy::DisconnectSession { session_id }),
            None => None,
        };
        let close = self.has_peer_connection;
        self.active_session = None;
        self.p2p_ready = false;
        self.has_data_channel = false;
        self.has_peer_connection = false;
        (msg, close)
    }

    /// Reacts to a message from the proxy.
    pub fn on_proxy_message(&mut self, msg: ProxyToPeer) -> (r: Vec<PeerAction>)
        ensures
            client_step(*old(self), msg, *final(self), r@),
            client_wf(*old(self)) ==> client_wf(*final(self)),
    {
        let mut out: Vec<PeerAction> = Vec::new();
        match msg {
            ProxyToPeer::Connected { session_id, via_p2p, turn, .. } => {
                self.active_session = Some(session_id);
                self.p2p_ready = false;
                match turn {
                    Some(t) if via_p2p => {
                        self.has_peer_connection = true;
                        self.has_data_channel = true;
                        out.push(
                            PeerAction::Transport { message: "Attempting P2P via TURN".to_string() },
                        );
                        out.push(PeerAction::StartOffer { session_id, turn: t });
                    },
                    _ => {
                        self.has_peer_connection = false;
                        self.has_data_channel = false;
                        out.push(PeerAction::Transport { message: "WebSocket relay".to_string() });
                    },
                }
            },
            ProxyToPeer::PeerSignal { session_id, from, signal } => {
                if self.active_session == Some(session_id) && from == AuthRole::Server
                    && self.has_peer_connection {
                    match signal {
                        SignalPayload::SdpAnswer { sdp } => {
                            let ghost a = PeerAction::ApplyAnswer { session_id, sdp };
                            out.push(PeerAction::ApplyAnswer { session_id, sdp });
                            assert(out@ =~= seq![a]);
                        },
                        SignalPayload::IceCandidate { candidate, sdp_mid, sdp_mline_index } => {
                            let ghost a = PeerAction::AddCandidate {
                                session_id,
                                candidate,
                                sdp_mid,
                                sdp_mline_index,
                            };
                            out.push(
                                PeerAction::AddCandidate {
                                    session_id,
                                    candidate,
                                    sdp_mid,
                                    sdp_mline_index,
                                },
                            );
                            assert(out@ =~= seq![a]);
                        },
                        SignalPayload::SdpOffer { .. } => {},
                    }
                }
            },
            ProxyToPeer::RelayData { session_id, payload } => {
                if self.active_session == Some(session_id) {
                    let ghost a = PeerAction::Deliver { session_id, payload };
                    out.push(PeerAction::Deliver { session_id, payload });
                    assert(out@ =~= seq![a]);
                }
            },
            ProxyToPeer::SessionClosed { session_id, reason } => {
                if self.active_session == Some(session_id) {
                    let ghost c = PeerAction::Closed { reason };
                    if self.has_peer_connection {
                        out.push(PeerAction::ClosePeerConnection { session_id });
                    }
                    out.push(PeerAction::Closed { reason });
                    if self.has_peer_connection {
                        assert(out@ =~= seq![PeerAction::ClosePeerConnection { session_id }, c]);
                    } else {
                        assert(out@ =~= seq![c]);
                    }
                    self.active_session = None;
                    self.p2p_ready = false;
                    self.has_data_channel = false;
                    self.has_peer_connection = false;
                }
            },
            ProxyToPeer::AuthError { reason } | ProxyToPeer::ConnectionError { reason } => {
                let ghost a = PeerAction::Failed { reason };
                out.push(PeerAction::Failed { reason });
                assert(out@ =~= seq![a]);
            },
            _ => {},
        }
        out
    }
}


/// What the server peer knows of one session: whether it is to go
/// peer-to-peer, with which TURN credentials, and whether its peer
/// connection exists yet.
#[derive(Debug)]
pub struct SessionMeta {
    pub session_id: Id,
    pub via_p2p: bool,
    pub turn: Option<TurnCredentials>,
    pub has_peer_connection: bool,
}

/// The model of one session on the server: (via_p2p, turn, has_peer_connection).
pub type MetaView = (bool, Option<TurnCredentials>, bool);

pub open spec fn meta_pairs(s: Seq<SessionMeta>) -> Seq<(Id, MetaView)> {
    s.map_values(|m: SessionMeta| (m.session_id, (m.via_p2p, m.turn, m.has_peer_connection)))
}

/// The transport state of the server peer, one entry per session.
#[derive(Debug)]
pub struct ServerTransport {
    sessions: Vec<SessionMeta>,
}

fn copy_turn(t: &Option<TurnCredentials>) -> (r: Option<TurnCredentials>)
    ensures
        r == *t,
{
    match t {
        Some(c) => Some(c.duplicate()),
        None => None,
    }
}

/// The server's response to a message from the proxy, over the model of
/// its sessions.
pub open spec fn server_step(
    m: Map<Id, MetaView>,
    msg: ProxyToPeer,
    next: Map<Id, MetaView>,
    out: Seq<PeerAction>,
) -> bool {
    match msg {
        ProxyToPeer::PeerJoined { session_id, via_p2p, turn, .. } => {
            &&& next == m.insert(session_id, (via_p2p, turn, false))
            &&& out.len() == 0
        },
        ProxyToPeer::PeerSignal { session_id, from, signal } => if from == AuthRole::Client
            && m.contains_key(session_id) && m[session_id].0 {
            let e = m[session_id];
            let created = if e.2 {
                Seq::<PeerAction>::empty()
            } else {
                seq![PeerAction::CreatePeerConnection { session_id, turn: e.1 }]
            };
            &&& next == m.insert(session_id, (e.0, e.1, true))
            &&& out == created + match signal {
                SignalPayload::SdpOffer { sdp } => seq![PeerAction::AcceptOffer { session_id, sdp }],
                SignalPayload::IceCandidate { candidate, sdp_mid, sdp_mline_index } => seq![
                    PeerAction::AddCandidate { session_id, candidate, sdp_mid, sdp_mline_index },
                ],
                SignalPayload::SdpAnswer { .. } => Seq::<PeerAction>::empty(),
            }
        } else {
            next == m && out.len() == 0
        },
        ProxyToPeer::RelayData { session_id, payload } => {
            &&& next == m
            &&& out == if m.contains_key(session_id) {
                seq![PeerAction::Deliver { session_id, payload }]
            } else {
                Seq::<PeerAction>::empty()
            }
        },
        ProxyToPeer::SessionClosed { session_id, reason } => if m.contains_key(session_id) {
            &&& next == m.remove(session_id)
            &&& out == if m[session_id].2 {
                seq![PeerAction::ClosePeerConnection { session_id }, PeerAction::Closed { reason }]
            } else {
                seq![PeerAction::Closed { reason }]
            }
        } else {
            next == m && out.len() == 0
        },
        ProxyToPeer::AuthError { reason } | ProxyToPeer::ConnectionError { reason } => {
            &&& next == m
            &&& out == seq![PeerAction::Failed { reason }]
        },
        _ => next == m && out.len() == 0,
    }
}

impl ServerTransport {
    /// The sessions that the server knows of.
    pub closed spec fn sessions(&self) -> Map<Id, MetaView> {
        to_map(meta_pairs(self.sessions@))
    }

    pub closed spec fn wf(&self) -> bool {
        keys_unique(meta_pairs(self.sessions@))
    }

    pub fn new() -> (r: ServerTransport)
        ensures
            r.wf(),
            r.sessions() == Map::<Id, MetaView>::empty(),
    {
        let r = ServerTransport { sessions: Vec::new() };
        assert(meta_pairs(r.sessions@) =~= Seq::empty());
        r
    }

    fn find(&self, session_id: Id) -> (r: Option<usize>)
        requires
            self.wf(),
        ensures
            match r {
                Some(i) => i < self.sessions@.len() && self.sessions@[i as int].session_id
                    == session_id && self.sessions().contains_key(session_id)
                    && self.sessions()[session_id] == meta_pairs(self.sessions@)[i as int].1,
                None => !self.sessions().contains_key(session_id),
            },
    {
        let mut i: usize = 0;
        while i < self.sessions.len()
            invariant
                i <= self.sessions@.len(),
                forall|j: int| 0 <= j < i ==> self.sessions@[j].session_id != session_id,
                self.wf(),
            decreases self.sessions@.len() - i,
        {
            if self.sessions[i].session_id == session_id {
                proof {
                    lemma_to_map_index(meta_pairs(self.sessions@), i as int);
                }
                return Some(i);
            }
            i = i + 1;
        }
        proof {
            lemma_to_map_absent(meta_pairs(self.sessions@), session_id);
        }
        None
    }

    /// Takes out the entry at `i`, and returns it.
    fn take(&mut self, i: usize) -> (r: SessionMeta)
        requires
            old(self).wf(),
            i < old(self).sessions@.len(),
        ensures
            final(self).wf(),
            r == old(self).sessions@[i as int],
            final(self).sessions() == old(self).sessions().remove(r.session_id),
    {
        let ghost before = meta_pairs(self.sessions@);
        proof {
            lemma_to_map_remove(before, i as int);
        }
        let r = self.sessions.remove(i);
        proof {
            assert(meta_pairs(self.sessions@) =~= before.remove(i as int));
        }
        r
    }

    /// Puts in an entry whose session is not there.
    fn put(&mut self, m: SessionMeta)
        requires
            old(self).wf(),
            !old(self).sessions().contains_key(m.session_id),
        ensures
            final(self).wf(),
            final(self).sessions() == old(self).sessions().insert(
                m.session_id,
                (m.via_p2p, m.turn, m.has_peer_connection),
            ),
    {
        let ghost before = meta_pairs(self.sessions@);
        let ghost p = (m.session_id, (m.via_p2p, m.turn, m.has_peer_connection));
        self.sessions.push(m);
        proof {
            assert(meta_pairs(self.sessions@) =~= before.push(p));
            lemma_to_map_push(before, p);
            lemma_keys_unique_push(before, p);
        }
    }

    /// Reacts to a message from the proxy.
    pub fn on_proxy_message(&mut self, msg: ProxyToPeer) -> (r: Vec<PeerAction>)
        requires
            old(self).wf(),
        ensures
            final(self).wf(),
            server_step(old(self).sessions(), msg, final(self).sessions(), r@),
    {
        let mut out: Vec<PeerAction> = Vec::new();
        match msg {
            ProxyToPeer::PeerJoined { session_id, via_p2p, turn, .. } => {
                match self.find(session_id) {
                    Some(i) => {
                        self.take(i);
                    },
                    None => {},
                }
                self.put(SessionMeta { session_id, via_p2p, turn, has_peer_connection: false });
                proof {
                    assert(self.sessions() =~= old(self).sessions().insert(
                        session_id,
                        (via_p2p, turn, false),
                    ));
                }
            },
            ProxyToPeer::PeerSignal { session_id, from, signal } => {
                if from == AuthRole::Client {
                    match self.find(session_id) {
                        Some(i) => {
                            if self.sessions[i].via_p2p {
                                let e = self.take(i);
                                let ghost created = if e.has_peer_connection {
                                    Seq::<PeerAction>::empty()
                                } else {
                                    seq![
                                        PeerAction::CreatePeerConnection {
                                            session_id,
                                            turn: e.turn,
                                        },
                                    ]
                                };
                                if !e.has_peer_connection {
                                    out.push(
                                        PeerAction::CreatePeerConnection {
                                            session_id,
                                            turn: copy_turn(&e.turn),
                                        },
                                    );
                                }
                                assert(out@ =~= created);
                                match signal {
                                    SignalPayload::SdpOffer { sdp } => {
                                        let ghost a = PeerAction::AcceptOffer { session_id, sdp };
                                        out.push(PeerAction::AcceptOffer { session_id, sdp });
                                        assert(out@ =~= created + seq![a]);
                                    },
                                    SignalPayload::IceCandidate {
                                        candidate,
                                        sdp_mid,
                                        sdp_mline_index,
                                    } => {
                                        let ghost a = PeerAction::AddCandidate {
                                            session_id,
                                            candidate,
                                            sdp_mid,
                                            sdp_mline_index,
                                        };
                                        out.push(
                                            PeerAction::AddCandidate {
                                                session_id,
                                                candidate,
                                                sdp_mid,
                                                sdp_mline_index,
                                            },
                                        );
                                        assert(out@ =~= created + seq![a]);
                                    },
                                    SignalPayload::SdpAnswer { .. } => {
                                        assert(out@ =~= created + Seq::<PeerAction>::empty());
                                    },
                                }
                                self.put(
                                    SessionMeta {
                                        session_id,
                                        via_p2p: e.via_p2p,
                                        turn: e.turn,
                                        has_peer_connection: true,
                                    },
                                );
                                proof {
                                    assert(self.sessions() =~= old(self).sessions().insert(
                                        session_id,
                                        (e.via_p2p, e.turn, true),
                                    ));
                                }
                            }
                        },
                        None => {},
                    }
                }
            },
            ProxyToPeer::RelayData { session_id, payload } => {
                match self.find(session_id) {
                    Some(_) => {
                        let ghost a = PeerAction::Deliver { session_id, payload };
                        out.push(PeerAction::Deliver { session_id, payload });
                        assert(out@ =~= seq![a]);
                    },
                    None => {
                        assert(out@ =~= Seq::<PeerAction>::empty());
                    },
                }
            },
            ProxyToPeer::SessionClosed { session_id, reason } => {
                match self.find(session_id) {
                    Some(i) => {
                        let e = self.take(i);
                        let ghost c = PeerAction::Closed { reason };
                        if e.has_peer_connection {
                            out.push(PeerAction::ClosePeerConnection { session_id });
                        }
                        out.push(PeerAction::Closed { reason });
                        if e.has_peer_connection {
                            assert(out@ =~= seq![PeerAction::ClosePeerConnection { session_id }, c]);
                        } else {
                            assert(out@ =~= seq![c]);
                        }
                    },
                    None => {},
                }
            },
            ProxyToPeer::AuthError { reason } | ProxyToPeer::ConnectionError { reason } => {
                let ghost a = PeerAction::Failed { reason };
                out.push(PeerAction::Failed { reason });
                assert(out@ =~= seq![a]);
            },
            _ => {},
        }
        out
    }
}

/// What a client sends the proxy first: it authenticates as a client, then
/// asks for the server of `connection`.
pub fn client_opening(connection: &ProjectConnection) -> (r: Vec<PeerToProxy>)
    ensures
        r@ == seq![
            PeerToProxy::AuthProxy {
                proxy_password: connection.proxy_password,
                role: AuthRole::Client,
            },
            PeerToProxy::ConnectServer {
                server_name: connection.server_name,
                server_password: connection.server_password,
                use_p2p: connection.prefer_p2p,
            },
        ],
{
    let auth = PeerToProxy::AuthProxy {
        proxy_password: connection.proxy_password.clone(),
        role: AuthRole::Client,
    };
    let connect = PeerToProxy::ConnectServer {
        server_name: connection.server_name.clone(),
        server_password: connection.server_password.clone(),
        use_p2p: connection.prefer_p2p,
    };
    let mut out = Vec::new();
    out.push(auth);
    out.push(connect);
    proof {
        assert(out@ =~= seq![auth, connect]);
    }
    out
}

/// What a server sends the proxy first: it authenticates as a server, then
/// registers under `server_name`.
pub fn server_opening(proxy_password: &String, server_name: &String, server_password: &String) -> (r:
    Vec<PeerToProxy>)
    ensures
        r@ == seq![
            PeerToProxy::AuthProxy { proxy_password: *proxy_password, role: AuthRole::Server },
            PeerToProxy::RegisterServer {
                server_name: *server_name,
                server_password: *server_password,
            },
        ],
{
    let auth = PeerToProxy::AuthProxy {
        proxy_password: proxy_password.clone(),
        role: AuthRole::Server,
    };
    let register = PeerToProxy::RegisterServer {
        server_name: server_name.clone(),
        server_password: server_password.clone(),
    };
    let mut out = Vec::new();
    out.push(auth);
    out.push(register);
    proof {
        assert(out@ =~= seq![auth, register]);
    }
    out
}

/// The `signal` that carries the client's offer.
pub fn offer_signal(session_id: Id, sdp: String) -> (r: PeerToProxy)
    ensures
        r == (PeerToProxy::Signal { session_id, signal: SignalPayload::SdpOffer { sdp } }),
{
    PeerToProxy::Signal { session_id, signal: SignalPayload::SdpOffer { sdp } }
}

/// The `signal` that carries the server's answer.
pub fn answer_signal(session_id: Id, sdp: String) -> (r: PeerToProxy)
    ensures
        r == (PeerToProxy::Signal { session_id, signal: SignalPayload::SdpAnswer { sdp } }),
{
    PeerToProxy::Signal { session_id, signal: SignalPayload::SdpAnswer { sdp } }
}

/// The `signal` that carries a local ICE candidate.
pub fn candidate_signal(
    session_id: Id,
    candidate: String,
    sdp_mid: Option<String>,
    sdp_mline_index: Option<u16>,
) -> (r: PeerToProxy)
    ensures
        r == (PeerToProxy::Signal {
            session_id,
            signal: SignalPayload::IceCandidate { candidate, sdp_mid, sdp_mline_index },
        }),
{
    PeerToProxy::Signal {
        session_id,
        signal: SignalPayload::IceCandidate { candidate, sdp_mid, sdp_mline_index },
    }
}

/// The envelope of a request.
pub fn request_envelope(message_id: Id, request: RpcRequest) -> (r: AppEnvelope)
    ensures
        r == (AppEnvelope { message_id, payload: AppPayload::RpcRequest(request) }),
{
    AppEnvelope { message_id, payload: AppPayload::RpcRequest(request) }
}

/// The server's answer to `request`, with the outcome `result`.
pub fn respond(request: &RpcRequest, message_id: Id, result: RpcResult) -> (r: AppEnvelope)
    ensures
        r == (AppEnvelope {
            message_id,
            payload: AppPayload::RpcResponse(RpcResponse { request_id: request.request_id, result }),
        }),
{
    AppEnvelope {
        message_id,
        payload: AppPayload::RpcResponse(RpcResponse { request_id: request.request_id, result }),
    }
}

/// What the client's RPC layer takes from an envelope: its response, if it
/// holds one.
pub open spec fn response_in_spec(envelope: AppEnvelope) -> Option<RpcResponse> {
    match envelope.payload {
        AppPayload::RpcResponse(r) => Some(r),
        _ => None,
    }
}

pub fn response_in(envelope: AppEnvelope) -> (r: Option<RpcResponse>)
    ensures
        r == response_in_spec(envelope),
{
    match envelope.payload {
        AppPayload::RpcResponse(r) => Some(r),
        _ => None,
    }
}

/// What the server's RPC layer takes from an envelope: its request, if it
/// holds one.
pub fn request_in(envelope: AppEnvelope) -> (r: Option<RpcRequest>)
    ensures
        r == match envelope.payload {
            AppPayload::RpcRequest(q) => Some(q),
            _ => None,
        },
{
    match envelope.payload {
        AppPayload::RpcRequest(q) => Some(q),
        _ => None,
    }
}

/// On a live session, bytes relayed to the client reach its RPC layer once
/// and unchanged, and so do bytes on its data channel when there is one;
/// the client stays as it was; and the envelope of the server's answer to
/// a request yields one response, under the request's id.
pub proof fn lemma_rpc_round_trip(
    t: ClientTransport,
    next: ClientTransport,
    session_id: Id,
    request: RpcRequest,
    message_id: Id,
    result: RpcResult,
    bytes: Vec<u8>,
    acts: Seq<PeerAction>,
)
    requires
        t.active_session == Some(session_id),
        client_step(t, ProxyToPeer::RelayData { session_id, payload: bytes }, next, acts),
    ensures
        next == t,
        acts == seq![PeerAction::Deliver { session_id, payload: bytes }],
        t.has_data_channel ==> channel_delivery(t, bytes) == Some(
            PeerAction::Deliver { session_id, payload: bytes },
        ),
        response_in_spec(
            AppEnvelope {
                message_id,
                payload: AppPayload::RpcResponse(
                    RpcResponse { request_id: request.request_id, result },
                ),
            },
        ) == Some(RpcResponse { request_id: request.request_id, result }),
{
}

/// A frame on an existing data channel reaches the RPC layer once,
/// unchanged, as traffic of the client's session; an envelope with a
/// response yields that response, and one with a request yields none.
pub proof fn lemma_channel_frame_delivered(
    t: ClientTransport,
    bytes: Vec<u8>,
    message_id: Id,
    response: RpcResponse,
    request: RpcRequest,
)
    requires
        client_wf(t),
        t.has_data_channel,
    ensures
        t.active_session is Some,
        channel_delivery(t, bytes) == Some(
            PeerAction::Deliver { session_id: t.active_session->0, payload: bytes },
        ),
        response_in_spec(AppEnvelope { message_id, payload: AppPayload::RpcResponse(response) })
            == Some(response),
        response_in_spec(AppEnvelope { message_id, payload: AppPayload::RpcRequest(request) })
            is None,
{
}

/// An offer from the client of a session that the server knows as
/// peer-to-peer ends in exactly one `AcceptOffer` with that offer, after
/// building the session's peer connection if it has none, and the session
/// then has one; any other offer is ignored.
pub proof fn lemma_offer_answered(
    m: Map<Id, MetaView>,
    session_id: Id,
    sdp: String,
    next: Map<Id, MetaView>,
    out: Seq<PeerAction>,
)
    requires
        server_step(
            m,
            ProxyToPeer::PeerSignal {
                session_id,
                from: AuthRole::Client,
                signal: SignalPayload::SdpOffer { sdp },
            },
            next,
            out,
        ),
    ensures
        m.contains_key(session_id) && m[session_id].0 ==> {
            &&& out.len() == (if m[session_id].2 {
                1int
            } else {
                2int
            })
            &&& out.last() == PeerAction::AcceptOffer { session_id, sdp }
            &&& forall|i: int| 0 <= i < out.len() - 1 ==> !(out[i] is AcceptOffer)
            &&& next.contains_key(session_id) && next[session_id].2
        },
        !(m.contains_key(session_id) && m[session_id].0) ==> next == m && out.len() == 0,
{
}

} // verus!
