//! The messages exchanged between peers and the proxy, and the application
//! envelopes that carry RPC requests and responses between the two peers.
//!
//! Identifiers (connections, sessions, messages, requests) are UUIDs, held
//! here as their 128-bit value.
use vstd::prelude::*;

verus! {

/// A connection id, a session id or a message id: the 128-bit value of a UUID.
pub type Id = u128;

/// The role a peer claims when it authenticates to the proxy.
#[derive(Debug, Clone, Copy, PartialEq, Eq, Structural)]
pub enum AuthRole {
    Server,
    Client,
}

/// Where the proxy can reach a TURN server, and how to authenticate there.
#[derive(Debug, Clone)]
pub struct TurnCredentials {
    pub url: String,
    pub username: String,
    pub password: String,
}

impl TurnCredentials {
    /// A copy of these credentials.
    pub fn duplicate(&self) -> (r: TurnCredentials)
        ensures
            r == *self,
    {
        TurnCredentials {
            url: self.url.clone(),
            username: self.username.clone(),
            password: self.password.clone(),
        }
    }
}

/// The offer/answer/candidate exchange that negotiates a peer-to-peer channel.
#[derive(Debug, Clone)]
pub enum SignalPayload {
    SdpOffer { sdp: String },
    SdpAnswer { sdp: String },
    IceCandidate { candidate: String, sdp_mid: Option<String>, sdp_mline_index: Option<u16> },
}

/// A message that a peer sends to the proxy.
#[derive(Debug, Clone)]
pub enum PeerToProxy {
    AuthProxy { proxy_password: String, role: AuthRole },
    RegisterServer { server_name: String, server_password: String },
    ConnectServer { server_name: String, server_password: String, use_p2p: bool },
    DisconnectSession { session_id: Id },
    Signal { session_id: Id, signal: SignalPayload },
    RelayData { session_id: Id, payload: Vec<u8> },
}

/// A message that the proxy sends to a peer.
#[derive(Debug, Clone)]
pub enum ProxyToPeer {
    AuthOk { role: AuthRole },
    AuthError { reason: String },
    Registered { server_name: String },
    ConnectionError { reason: String },
    Connected { session_id: Id, server_name: String, via_p2p: bool, turn: Option<TurnCredentials> },
    PeerJoined { session_id: Id, peer_id: Id, via_p2p: bool, turn: Option<TurnCredentials> },
    SessionClosed { session_id: Id, reason: String },
    PeerSignal { session_id: Id, from: AuthRole, signal: SignalPayload },
    RelayData { session_id: Id, payload: Vec<u8> },
}

/// One entry of a remote directory listing.
#[derive(Debug, Clone)]
pub struct DirectoryEntry {
    pub name: String,
    pub path: String,
    pub is_dir: bool,
}

/// What a client asks the server peer to do.
#[derive(Debug, Clone)]
pub enum RpcAction {
    RunCommand { command: String },
    ListRoots,
    ListDirectory { path: String },
    ReadFile { path: String },
    WriteFile { path: String, content: String },
}

/// What the server peer answers.
#[derive(Debug, Clone)]
pub enum RpcResult {
    CommandOutput { output: String },
    Roots { roots: Vec<String> },
    DirectoryEntries { path: String, entries: Vec<DirectoryEntry> },
    FileContent { path: String, content: String },
    WriteComplete { path: String },
    Error { message: String },
}

#[derive(Debug, Clone)]
pub struct RpcRequest {
    pub request_id: Id,
    pub action: RpcAction,
}

#[derive(Debug, Clone)]
pub struct RpcResponse {
    pub request_id: Id,
    pub result: RpcResult,
}

#[derive(Debug, Clone)]
pub enum AppPayload {
    RpcRequest(RpcRequest),
    RpcResponse(RpcResponse),
}

/// The unit of application traffic between the two peers of a session.
#[derive(Debug, Clone)]
pub struct AppEnvelope {
    pub message_id: Id,
    pub payload: AppPayload,
}

} // verus!
