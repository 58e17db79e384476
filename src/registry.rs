//! The proxy's session registry: which connections are open and in which
//! role, which servers are registered under which name, and which sessions
//! bind a client connection to a server connection.
//!
//! Every operation is one atomic step on the registry. Operations that must
//! tell peers about what they did return the notices; the caller sends them.
use vstd::prelude::*;
use crate::keyed::{
    keys_unique, lemma_keys_unique_push, lemma_to_map_absent,
    lemma_select_start, lemma_select_step, lemma_to_map_index, lemma_to_map_push,
    lemma_to_map_remove, select, to_map,
};
use crate::wire::{AuthRole, Id};

verus! {

/// A server registered under a name, with the password that clients must give.
#[derive(Debug, Clone)]
pub struct ServerRegistration {
    pub server_name: String,
    pub conn_id: Id,
    pub server_password: String,
}

/// A session: one server connection and one client connection.
#[derive(Debug, Clone, Copy, PartialEq, Eq, Structural)]
pub struct Session {
    pub session_id: Id,
    pub server_conn_id: Id,
    pub client_conn_id: Id,
}

/// An open connection, and the role it authenticated with, if it has.
#[derive(Debug, Clone, Copy)]
struct Connection {
    id: Id,
    role: Option<AuthRole>,
}

/// What a registry operation refused, and why.
#[derive(Debug, Clone, Copy, PartialEq, Eq, Structural)]
pub enum RegistryError {
    /// The connection already has a role.
    AlreadyAuthenticated,
    /// Another server holds the name.
    AlreadyRegistered,
    /// No server holds the name.
    UnknownServerName,
    /// The server exists, and the password differs from its own.
    InvalidServerPassword,
    /// The connection is not open in the role that the operation needs.
    WrongRole,
    /// The session id drawn for a new session is already in use.
    SessionIdTaken,
}

impl RegistryError {
    /// The reason sent to the peer.
    pub fn reason(&self) -> (r: String)
        ensures
            r@ == error_reason(*self),
    {
        match self {
            RegistryError::AlreadyAuthenticated => "already authenticated".to_string(),
            RegistryError::AlreadyRegistered => "server name already registered".to_string(),
            RegistryError::UnknownServerName => "unknown server name".to_string(),
            RegistryError::InvalidServerPassword => "invalid server password".to_string(),
            RegistryError::WrongRole => "not allowed in this role".to_string(),
            RegistryError::SessionIdTaken => "session id unavailable".to_string(),
        }
    }
}

pub open spec fn error_reason(e: RegistryError) -> Seq<char> {
    match e {
        RegistryError::AlreadyAuthenticated => "already authenticated"@,
        RegistryError::AlreadyRegistered => "server name already registered"@,
        RegistryError::UnknownServerName => "unknown server name"@,
        RegistryError::InvalidServerPassword => "invalid server password"@,
        RegistryError::WrongRole => "not allowed in this role"@,
        RegistryError::SessionIdTaken => "session id unavailable"@,
    }
}

/// A `session_closed` that must go to `target` once the registry is released.
#[derive(Debug, Clone)]
pub struct Notice {
    pub target: Id,
    pub session_id: Id,
    pub reason: String,
}

/// What `detach` took away: the connection's server registrations, and one
/// notice for each session that it ended.
#[derive(Debug)]
pub struct Detached {
    pub servers: Vec<ServerRegistration>,
    pub notices: Vec<Notice>,
}

/// The two ends of a session in the model: (server connection, client connection).
pub type Ends = (Id, Id);

pub open spec fn touches(e: Ends, c: Id) -> bool {
    e.0 == c || e.1 == c
}

/// The end of a session that is not `c`.
pub open spec fn survivor(e: Ends, c: Id) -> Id {
    if e.0 == c {
        e.1
    } else {
        e.0
    }
}

/// Why a session ends when connection `c` goes away.
pub open spec fn closed_reason(e: Ends, c: Id) -> Seq<char> {
    if e.0 == c {
        "server disconnected"@
    } else {
        "client disconnected"@
    }
}

pub open spec fn server_pairs(s: Seq<ServerRegistration>) -> Seq<(Seq<char>, (Id, Seq<char>))> {
    s.map_values(|r: ServerRegistration| (r.server_name@, (r.conn_id, r.server_password@)))
}

pub open spec fn session_pairs(s: Seq<Session>) -> Seq<(Id, Ends)> {
    s.map_values(|x: Session| (x.session_id, (x.server_conn_id, x.client_conn_id)))
}

pub open spec fn notice_pairs(s: Seq<Notice>) -> Seq<(Id, (Id, Seq<char>))> {
    s.map_values(|n: Notice| (n.session_id, (n.target, n.reason@)))
}

spec fn conn_pairs(s: Seq<Connection>) -> Seq<(Id, Option<AuthRole>)> {
    s.map_values(|c: Connection| (c.id, c.role))
}

/// What must hold of the registry's three maps at all times: a registered
/// server's connection is open as a server, and each session joins an open
/// server connection to an open client connection.
pub open spec fn registry_invariant(
    conns: Map<Id, Option<AuthRole>>,
    servers: Map<Seq<char>, (Id, Seq<char>)>,
    sessions: Map<Id, Ends>,
) -> bool {
    &&& forall|n: Seq<char>| #[trigger]
        servers.contains_key(n) ==> conns.contains_key(servers[n].0) && conns[servers[n].0]
            == Some(AuthRole::Server)
    &&& forall|s: Id| #[trigger]
        sessions.contains_key(s) ==> {
            &&& conns.contains_key(sessions[s].0)
            &&& conns[sessions[s].0] == Some(AuthRole::Server)
            &&& conns.contains_key(sessions[s].1)
            &&& conns[sessions[s].1] == Some(AuthRole::Client)
        }
}

/// What registering `name` for connection `conn` gives.
pub open spec fn register_result(
    conns: Map<Id, Option<AuthRole>>,
    servers: Map<Seq<char>, (Id, Seq<char>)>,
    conn: Id,
    name: Seq<char>,
) -> Result<(), RegistryError> {
    if !conns.contains_key(conn) || conns[conn] != Some(AuthRole::Server) {
        Err(RegistryError::WrongRole)
    } else if servers.contains_key(name) {
        Err(RegistryError::AlreadyRegistered)
    } else {
        Ok(())
    }
}

/// What asking for a session with server `name` from connection `client`
/// gives: the server's connection, or why not.
pub open spec fn open_result(
    conns: Map<Id, Option<AuthRole>>,
    servers: Map<Seq<char>, (Id, Seq<char>)>,
    sessions: Map<Id, Ends>,
    client: Id,
    name: Seq<char>,
    password: Seq<char>,
    session_id: Id,
) -> Result<Id, RegistryError> {
    if !conns.contains_key(client) || conns[client] != Some(AuthRole::Client) {
        Err(RegistryError::WrongRole)
    } else if !servers.contains_key(name) {
        Err(RegistryError::UnknownServerName)
    } else if servers[name].1 != password {
        Err(RegistryError::InvalidServerPassword)
    } else if sessions.contains_key(session_id) {
        Err(RegistryError::SessionIdTaken)
    } else {
        Ok(servers[name].0)
    }
}

/// The proxy's in-memory state.
pub struct ProxyState {
    connections: Vec<Connection>,
    servers: Vec<ServerRegistration>,
    sessions: Vec<Session>,
}

impl ProxyState {
    /// Open connections, each with its role once it has authenticated.
    pub closed spec fn connections(&self) -> Map<Id, Option<AuthRole>> {
        to_map(conn_pairs(self.connections@))
    }

    /// Registered servers by name: (owning connection, server password).
    pub closed spec fn servers(&self) -> Map<Seq<char>, (Id, Seq<char>)> {
        to_map(server_pairs(self.servers@))
    }

    /// Live sessions by id: (server connection, client connection).
    pub closed spec fn sessions(&self) -> Map<Id, Ends> {
        to_map(session_pairs(self.sessions@))
    }

    pub closed spec fn tables_distinct(&self) -> bool {
        &&& keys_unique(conn_pairs(self.connections@))
        &&& keys_unique(server_pairs(self.servers@))
        &&& keys_unique(session_pairs(self.sessions@))
    }

    pub open spec fn wf(&self) -> bool {
        &&& self.tables_distinct()
        &&& registry_invariant(self.connections(), self.servers(), self.sessions())
    }

    pub fn new() -> (r: ProxyState)
        ensures
            r.wf(),
            r.connections() == Map::<Id, Option<AuthRole>>::empty(),
            r.servers() == Map::<Seq<char>, (Id, Seq<char>)>::empty(),
            r.sessions() == Map::<Id, Ends>::empty(),
    {
        let r = ProxyState { connections: Vec::new(), servers: Vec::new(), sessions: Vec::new() };
        assert(conn_pairs(r.connections@) =~= Seq::empty());
        assert(server_pairs(r.servers@) =~= Seq::empty());
        assert(session_pairs(r.sessions@) =~= Seq::empty());
        r
    }
}


impl ProxyState {
    fn find_connection(&self, id: Id) -> (r: Option<usize>)
        ensures
            match r {
                Some(i) => i < self.connections@.len() && self.connections@[i as int].id == id,
                None => forall|i: int|
                    0 <= i < self.connections@.len() ==> self.connections@[i].id != id,
            },
    {
        let mut i: usize = 0;
        while i < self.connections.len()
            invariant
                i <= self.connections@.len(),
                forall|j: int| 0 <= j < i ==> self.connections@[j].id != id,
            decreases self.connections@.len() - i,
        {
            if self.connections[i].id == id {
                return Some(i);
            }
            i = i + 1;
        }
        None
    }

    fn find_server(&self, name: &String) -> (r: Option<usize>)
        ensures
            match r {
                Some(i) => i < self.servers@.len() && self.servers@[i as int].server_name@ == name@,
                None => forall|i: int|
                    0 <= i < self.servers@.len() ==> self.servers@[i].server_name@ != name@,
            },
    {
        let mut i: usize = 0;
        while i < self.servers.len()
            invariant
                i <= self.servers@.len(),
                forall|j: int| 0 <= j < i ==> self.servers@[j].server_name@ != name@,
            decreases self.servers@.len() - i,
        {
            if self.servers[i].server_name == *name {
                return Some(i);
            }
            i = i + 1;
        }
        None
    }

    fn find_session(&self, session_id: Id) -> (r: Option<usize>)
        ensures
            match r {
                Some(i) => i < self.sessions@.len() && self.sessions@[i as int].session_id
                    == session_id,
                None => forall|i: int|
                    0 <= i < self.sessions@.len() ==> self.sessions@[i].session_id != session_id,
            },
    {
        let mut i: usize = 0;
        while i < self.sessions.len()
            invariant
                i <= self.sessions@.len(),
                forall|j: int| 0 <= j < i ==> self.sessions@[j].session_id != session_id,
            decreases self.sessions@.len() - i,
        {
            if self.sessions[i].session_id == session_id {
                return Some(i);
            }
            i = i + 1;
        }
        None
    }

    /// The role of `conn`: `None` when it is not open or has not authenticated.
    pub fn role_of(&self, conn: Id) -> (r: Option<AuthRole>)
        requires
            self.wf(),
        ensures
            r == (if self.connections().contains_key(conn) {
                self.connections()[conn]
            } else {
                None
            }),
    {
        match self.find_connection(conn) {
            Some(i) => {
                proof {
                    lemma_to_map_index(conn_pairs(self.connections@), i as int);
                }
                self.connections[i].role
            },
            None => {
                proof {
                    lemma_to_map_absent(conn_pairs(self.connections@), conn);
                }
                None
            },
        }
    }

    /// Whether `conn` is open.
    pub fn is_attached(&self, conn: Id) -> (r: bool)
        requires
            self.wf(),
        ensures
            r == self.connections().contains_key(conn),
    {
        match self.find_connection(conn) {
            Some(i) => {
                proof {
                    lemma_to_map_index(conn_pairs(self.connections@), i as int);
                }
                true
            },
            None => {
                proof {
                    lemma_to_map_absent(conn_pairs(self.connections@), conn);
                }
                false
            },
        }
    }

    /// Records a newly accepted connection, without a role. An id that is
    /// already open is left as it is, and `false` comes back.
    pub fn attach(&mut self, conn: Id) -> (r: bool)
        requires
            old(self).wf(),
        ensures
            final(self).wf(),
            r == !old(self).connections().contains_key(conn),
            final(self).connections() == (if r {
                old(self).connections().insert(conn, None)
            } else {
                old(self).connections()
            }),
            final(self).servers() == old(self).servers(),
            final(self).sessions() == old(self).sessions(),
    {
        if self.is_attached(conn) {
            return false;
        }
        let ghost before = conn_pairs(self.connections@);
        let c = Connection { id: conn, role: None };
        self.connections.push(c);
        proof {
            assert(conn_pairs(self.connections@) =~= before.push((conn, None)));
            lemma_to_map_push(before, (conn, None));
            lemma_keys_unique_push(before, (conn, None));
        }
        true
    }

    /// Gives `conn` its role, once for the life of the connection.
    pub fn set_role(&mut self, conn: Id, role: AuthRole) -> (r: Result<(), RegistryError>)
        requires
            old(self).wf(),
        ensures
            final(self).wf(),
            !old(self).connections().contains_key(conn) ==> r == Err::<(), _>(
                RegistryError::WrongRole,
            ),
            old(self).connections().contains_key(conn) && old(self).connections()[conn] is Some
                ==> r == Err::<(), _>(RegistryError::AlreadyAuthenticated),
            old(self).connections().contains_key(conn) && old(self).connections()[conn] is None
                ==> r is Ok,
            final(self).connections() == (if r is Ok {
                old(self).connections().insert(conn, Some(role))
            } else {
                old(self).connections()
            }),
            final(self).servers() == old(self).servers(),
            final(self).sessions() == old(self).sessions(),
    {
        match self.find_connection(conn) {
            None => {
                proof {
                    lemma_to_map_absent(conn_pairs(self.connections@), conn);
                }
                Err(RegistryError::WrongRole)
            },
            Some(i) => {
                let ghost before = conn_pairs(self.connections@);
                proof {
                    lemma_to_map_index(before, i as int);
                }
                if self.connections[i].role.is_some() {
                    return Err(RegistryError::AlreadyAuthenticated);
                }
                self.connections.remove(i);
                let c = Connection { id: conn, role: Some(role) };
                self.connections.push(c);
                proof {
                    lemma_to_map_remove(before, i as int);
                    let mid = before.remove(i as int);
                    assert(conn_pairs(self.connections@) =~= mid.push((conn, Some(role))));
                    lemma_to_map_push(mid, (conn, Some(role)));
                    lemma_keys_unique_push(mid, (conn, Some(role)));
                    let old_c = to_map(before);
                    let new_c = to_map(conn_pairs(self.connections@));
                    assert(new_c =~= old_c.insert(conn, Some(role)));
                    assert forall|n: Seq<char>| #[trigger] self.servers().contains_key(n) implies
                        new_c.contains_key(self.servers()[n].0) && new_c[self.servers()[n].0]
                            == Some(AuthRole::Server) by {
                        assert(old_c.contains_key(self.servers()[n].0));
                    }
                    assert forall|s: Id| #[trigger] self.sessions().contains_key(s) implies {
                        &&& new_c.contains_key(self.sessions()[s].0)
                        &&& new_c[self.sessions()[s].0] == Some(AuthRole::Server)
                        &&& new_c.contains_key(self.sessions()[s].1)
                        &&& new_c[self.sessions()[s].1] == Some(AuthRole::Client)
                    } by {
                        assert(old_c.contains_key(self.sessions()[s].0));
                    }
                }
                Ok(())
            },
        }
    }
}


impl ProxyState {
    /// Registers `name` for the server connection `conn`, if no server holds
    /// the name yet.
    pub fn register_server(&mut self, conn: Id, name: String, password: String) -> (r: Result<
        (),
        RegistryError,
    >)
        requires
            old(self).wf(),
        ensures
            final(self).wf(),
            r == register_result(old(self).connections(), old(self).servers(), conn, name@),
            final(self).servers() == (if r is Ok {
                old(self).servers().insert(name@, (conn, password@))
            } else {
                old(self).servers()
            }),
            final(self).connections() == old(self).connections(),
            final(self).sessions() == old(self).sessions(),
    {
        if self.role_of(conn) != Some(AuthRole::Server) {
            return Err(RegistryError::WrongRole);
        }
        match self.find_server(&name) {
            Some(i) => {
                proof {
                    lemma_to_map_index(server_pairs(self.servers@), i as int);
                }
                Err(RegistryError::AlreadyRegistered)
            },
            None => {
                let ghost before = server_pairs(self.servers@);
                proof {
                    lemma_to_map_absent(before, name@);
                }
                let ghost key = name@;
                let ghost pw = password@;
                let reg = ServerRegistration { server_name: name, conn_id: conn, server_password: password };
                self.servers.push(reg);
                proof {
                    assert(server_pairs(self.servers@) =~= before.push((key, (conn, pw))));
                    lemma_to_map_push(before, (key, (conn, pw)));
                    lemma_keys_unique_push(before, (key, (conn, pw)));
                }
                Ok(())
            },
        }
    }

    /// Binds the client connection `client` to the server registered as
    /// `name`, under the new session id `session_id`. On success, the server's
    /// connection comes back.
    pub fn open_session(&mut self, client: Id, name: &String, password: &String, session_id: Id) -> (r:
        Result<Id, RegistryError>)
        requires
            old(self).wf(),
        ensures
            final(self).wf(),
            r == open_result(
                old(self).connections(),
                old(self).servers(),
                old(self).sessions(),
                client,
                name@,
                password@,
                session_id,
            ),
            final(self).sessions() == (if r is Ok {
                old(self).sessions().insert(session_id, (r->Ok_0, client))
            } else {
                old(self).sessions()
            }),
            final(self).connections() == old(self).connections(),
            final(self).servers() == old(self).servers(),
    {
        if self.role_of(client) != Some(AuthRole::Client) {
            return Err(RegistryError::WrongRole);
        }
        let i = match self.find_server(name) {
            Some(i) => i,
            None => {
                proof {
                    lemma_to_map_absent(server_pairs(self.servers@), name@);
                }
                return Err(RegistryError::UnknownServerName);
            },
        };
        proof {
            lemma_to_map_index(server_pairs(self.servers@), i as int);
        }
        if self.servers[i].server_password != *password {
            return Err(RegistryError::InvalidServerPassword);
        }
        let server_conn = self.servers[i].conn_id;
        match self.find_session(session_id) {
            Some(j) => {
                proof {
                    lemma_to_map_index(session_pairs(self.sessions@), j as int);
                }
                Err(RegistryError::SessionIdTaken)
            },
            None => {
                let ghost before = session_pairs(self.sessions@);
                proof {
                    lemma_to_map_absent(before, session_id);
                }
                let s = Session { session_id, server_conn_id: server_conn, client_conn_id: client };
                self.sessions.push(s);
                proof {
                    assert(session_pairs(self.sessions@) =~= before.push(
                        (session_id, (server_conn, client)),
                    ));
                    lemma_to_map_push(before, (session_id, (server_conn, client)));
                    lemma_keys_unique_push(before, (session_id, (server_conn, client)));
                }
                Ok(server_conn)
            },
        }
    }

    /// The other end of session `session_id`, when `from` is one of its two
    /// connections.
    pub fn route(&self, session_id: Id, from: Id) -> (r: Option<Id>)
        requires
            self.wf(),
        ensures
            r == route_of(self.sessions(), session_id, from),
    {
        match self.find_session(session_id) {
            Some(i) => {
                proof {
                    lemma_to_map_index(session_pairs(self.sessions@), i as int);
                }
                let s = self.sessions[i];
                if s.server_conn_id == from {
                    Some(s.client_conn_id)
                } else if s.client_conn_id == from {
                    Some(s.server_conn_id)
                } else {
                    None
                }
            },
            None => {
                proof {
                    lemma_to_map_absent(session_pairs(self.sessions@), session_id);
                }
                None
            },
        }
    }

    /// Removes session `session_id` and returns it, if it is live.
    pub fn close_session(&mut self, session_id: Id) -> (r: Option<Session>)
        requires
            old(self).wf(),
        ensures
            final(self).wf(),
            match r {
                Some(s) => {
                    &&& old(self).sessions().contains_key(session_id)
                    &&& s.session_id == session_id
                    &&& (s.server_conn_id, s.client_conn_id) == old(self).sessions()[session_id]
                },
                None => !old(self).sessions().contains_key(session_id),
            },
            final(self).sessions() == old(self).sessions().remove(session_id),
            final(self).connections() == old(self).connections(),
            final(self).servers() == old(self).servers(),
    {
        match self.find_session(session_id) {
            Some(i) => {
                let ghost before = session_pairs(self.sessions@);
                proof {
                    lemma_to_map_index(before, i as int);
                    lemma_to_map_remove(before, i as int);
                }
                let s = self.sessions.remove(i);
                proof {
                    assert(session_pairs(self.sessions@) =~= before.remove(i as int));
                }
                Some(s)
            },
            None => {
                proof {
                    lemma_to_map_absent(session_pairs(self.sessions@), session_id);
                    assert(self.sessions().remove(session_id) =~= self.sessions());
                }
                None
            },
        }
    }
}

/// The other end of a session, seen from one of its connections.
pub open spec fn route_of(sessions: Map<Id, Ends>, session_id: Id, from: Id) -> Option<Id> {
    if sessions.contains_key(session_id) && touches(sessions[session_id], from) {
        Some(survivor(sessions[session_id], from))
    } else {
        None
    }
}


impl ServerRegistration {
    /// A copy of this registration.
    pub fn duplicate(&self) -> (r: ServerRegistration)
        ensures
            r == *self,
    {
        ServerRegistration {
            server_name: self.server_name.clone(),
            conn_id: self.conn_id,
            server_password: self.server_password.clone(),
        }
    }
}

/// The sessions of `m` that do not involve connection `c`.
pub open spec fn sessions_without(m: Map<Id, Ends>, c: Id) -> Map<Id, Ends> {
    Map::new(|k: Id| m.contains_key(k) && !touches(m[k], c), |k: Id| m[k])
}

/// For each session of `m` that involves `c`: the connection at its other
/// end, and why the session closed.
pub open spec fn closing_notices(m: Map<Id, Ends>, c: Id) -> Map<Id, (Id, Seq<char>)> {
    Map::new(
        |k: Id| m.contains_key(k) && touches(m[k], c),
        |k: Id| (survivor(m[k], c), closed_reason(m[k], c)),
    )
}

/// The registrations of `m` whose owner is (`owned == true`) or is not
/// (`owned == false`) connection `c`.
pub open spec fn servers_owned(m: Map<Seq<char>, (Id, Seq<char>)>, c: Id, owned: bool) -> Map<
    Seq<char>,
    (Id, Seq<char>),
> {
    Map::new(|n: Seq<char>| m.contains_key(n) && (m[n].0 == c) == owned, |n: Seq<char>| m[n])
}

spec fn owner_test(c: Id, owned: bool) -> spec_fn((Id, Seq<char>)) -> bool {
    |e: (Id, Seq<char>)| (e.0 == c) == owned
}

spec fn same_entry() -> spec_fn((Id, Seq<char>)) -> (Id, Seq<char>) {
    |e: (Id, Seq<char>)| e
}

spec fn touch_test(c: Id, touching: bool) -> spec_fn(Ends) -> bool {
    |e: Ends| touches(e, c) == touching
}

spec fn same_ends() -> spec_fn(Ends) -> Ends {
    |e: Ends| e
}

spec fn notice_of(c: Id) -> spec_fn(Ends) -> (Id, Seq<char>) {
    |e: Ends| (survivor(e, c), closed_reason(e, c))
}

impl ProxyState {
    /// Forgets connection `conn`: its role, the servers it registered, and
    /// every session it takes part in. Each such session yields one notice
    /// for the connection at its other end.
    pub fn detach(&mut self, conn: Id) -> (r: Detached)
        requires
            old(self).wf(),
        ensures
            final(self).wf(),
            final(self).connections() == old(self).connections().remove(conn),
            final(self).servers() == servers_owned(old(self).servers(), conn, false),
            final(self).sessions() == sessions_without(old(self).sessions(), conn),
            to_map(server_pairs(r.servers@)) == servers_owned(old(self).servers(), conn, true),
            keys_unique(server_pairs(r.servers@)),
            to_map(notice_pairs(r.notices@)) == closing_notices(old(self).sessions(), conn),
            keys_unique(notice_pairs(r.notices@)),
    {
        let ghost old_conns = self.connections();
        let ghost old_servers = self.servers();
        let ghost old_sessions = self.sessions();
        // the connection itself
        match self.find_connection(conn) {
            Some(i) => {
                let ghost before = conn_pairs(self.connections@);
                proof {
                    lemma_to_map_index(before, i as int);
                    lemma_to_map_remove(before, i as int);
                }
                self.connections.remove(i);
                proof {
                    assert(conn_pairs(self.connections@) =~= before.remove(i as int));
                }
            },
            None => {
                proof {
                    lemma_to_map_absent(conn_pairs(self.connections@), conn);
                    assert(old_conns.remove(conn) =~= old_conns);
                }
            },
        }
        // its registrations
        let ghost sp = server_pairs(self.servers@);
        let ghost keep_s = owner_test(conn, false);
        let ghost drop_s = owner_test(conn, true);
        let ghost same_s = same_entry();
        let mut kept_servers: Vec<ServerRegistration> = Vec::new();
        let mut removed_servers: Vec<ServerRegistration> = Vec::new();
        proof {
            lemma_select_start(sp, keep_s, same_s);
            lemma_select_start(sp, drop_s, same_s);
            assert(server_pairs(kept_servers@) =~= Seq::empty());
            assert(server_pairs(removed_servers@) =~= Seq::empty());
        }
        let mut i: usize = 0;
        while i < self.servers.len()
            invariant
                i <= self.servers@.len(),
                sp == server_pairs(self.servers@),
                keep_s == owner_test(conn, false),
                drop_s == owner_test(conn, true),
                same_s == same_entry(),
                keys_unique(sp),
                to_map(sp) == old_servers,
                keys_unique(server_pairs(kept_servers@)),
                to_map(server_pairs(kept_servers@)) == select(to_map(sp.take(i as int)), keep_s, same_s),
                keys_unique(server_pairs(removed_servers@)),
                to_map(server_pairs(removed_servers@)) == select(
                    to_map(sp.take(i as int)),
                    drop_s,
                    same_s,
                ),
            decreases self.servers@.len() - i,
        {
            proof {
                lemma_select_step(sp, i as int, server_pairs(kept_servers@), keep_s, same_s);
                lemma_select_step(sp, i as int, server_pairs(removed_servers@), drop_s, same_s);
            }
            let reg = self.servers[i].duplicate();
            assert(sp[i as int] == (reg.server_name@, (reg.conn_id, reg.server_password@)));
            if reg.conn_id != conn {
                proof {
                    assert(server_pairs(kept_servers@.push(reg)) =~= server_pairs(kept_servers@).push(sp[i as int]));
                }
                kept_servers.push(reg);
            } else {
                proof {
                    assert(server_pairs(removed_servers@.push(reg)) =~= server_pairs(removed_servers@).push(sp[i as int]));
                }
                removed_servers.push(reg);
            }
            i = i + 1;
        }
        proof {
            assert(sp.take(sp.len() as int) =~= sp);
            assert(select(old_servers, keep_s, same_s) =~= servers_owned(old_servers, conn, false));
            assert(select(old_servers, drop_s, same_s) =~= servers_owned(old_servers, conn, true));
        }
        self.servers = kept_servers;
        // its sessions
        let ghost ss = session_pairs(self.sessions@);
        let ghost keep_x = touch_test(conn, false);
        let ghost drop_x = touch_test(conn, true);
        let ghost same_x = same_ends();
        let ghost note_x = notice_of(conn);
        let mut kept_sessions: Vec<Session> = Vec::new();
        let mut notices: Vec<Notice> = Vec::new();
        proof {
            lemma_select_start(ss, keep_x, same_x);
            lemma_select_start(ss, drop_x, note_x);
            assert(session_pairs(kept_sessions@) =~= Seq::empty());
            assert(notice_pairs(notices@) =~= Seq::empty());
        }
        let mut j: usize = 0;
        while j < self.sessions.len()
            invariant
                j <= self.sessions@.len(),
                ss == session_pairs(self.sessions@),
                keep_x == touch_test(conn, false),
                drop_x == touch_test(conn, true),
                same_x == same_ends(),
                note_x == notice_of(conn),
                keys_unique(ss),
                to_map(ss) == old_sessions,
                keys_unique(session_pairs(kept_sessions@)),
                to_map(session_pairs(kept_sessions@)) == select(
                    to_map(ss.take(j as int)),
                    keep_x,
                    same_x,
                ),
                keys_unique(notice_pairs(notices@)),
                to_map(notice_pairs(notices@)) == select(to_map(ss.take(j as int)), drop_x, note_x),
            decreases self.sessions@.len() - j,
        {
            proof {
                lemma_select_step(ss, j as int, session_pairs(kept_sessions@), keep_x, same_x);
                lemma_select_step(ss, j as int, notice_pairs(notices@), drop_x, note_x);
            }
            let x = self.sessions[j];
            assert(ss[j as int] == (x.session_id, (x.server_conn_id, x.client_conn_id)));
            if x.server_conn_id == conn {
                let n = Notice {
                    target: x.client_conn_id,
                    session_id: x.session_id,
                    reason: "server disconnected".to_string(),
                };
                proof {
                    assert(notice_pairs(notices@.push(n)) =~= notice_pairs(notices@).push(
                        (ss[j as int].0, note_x(ss[j as int].1)),
                    ));
                }
                notices.push(n);
            } else if x.client_conn_id == conn {
                let n = Notice {
                    target: x.server_conn_id,
                    session_id: x.session_id,
                    reason: "client disconnected".to_string(),
                };
                proof {
                    assert(notice_pairs(notices@.push(n)) =~= notice_pairs(notices@).push(
                        (ss[j as int].0, note_x(ss[j as int].1)),
                    ));
                }
                notices.push(n);
            } else {
                proof {
                    assert(session_pairs(kept_sessions@.push(x)) =~= session_pairs(kept_sessions@).push(ss[j as int]));
                }
                kept_sessions.push(x);
            }
            j = j + 1;
        }
        proof {
            assert(ss.take(ss.len() as int) =~= ss);
            assert(select(old_sessions, keep_x, same_x) =~= sessions_without(old_sessions, conn));
            assert(select(old_sessions, drop_x, note_x) =~= closing_notices(old_sessions, conn));
        }
        self.sessions = kept_sessions;
        proof {
            let c2 = self.connections();
            assert forall|n: Seq<char>| #[trigger] self.servers().contains_key(n) implies c2.contains_key(
                self.servers()[n].0,
            ) && c2[self.servers()[n].0] == Some(AuthRole::Server) by {
                assert(old_servers.contains_key(n));
            }
            assert forall|s: Id| #[trigger] self.sessions().contains_key(s) implies {
                &&& c2.contains_key(self.sessions()[s].0)
                &&& c2[self.sessions()[s].0] == Some(AuthRole::Server)
                &&& c2.contains_key(self.sessions()[s].1)
                &&& c2[self.sessions()[s].1] == Some(AuthRole::Client)
            } by {
                assert(old_sessions.contains_key(s));
            }
        }
        Detached { servers: removed_servers, notices }
    }
}


impl ProxyState {
    /// Opens a connection under a freshly drawn id, and returns the id; `None`
    /// when the id drawn is already open (nothing changes then).
    pub fn accept(&mut self) -> (r: Option<Id>)
        requires
            old(self).wf(),
        ensures
            final(self).wf(),
            match r {
                Some(id) => {
                    &&& !old(self).connections().contains_key(id)
                    &&& final(self).connections() == old(self).connections().insert(id, None)
                },
                None => {
                    &&& final(self).connections() == old(self).connections()
                    &&& exists|id: Id| old(self).connections().contains_key(id)
                },
            },
            final(self).servers() == old(self).servers(),
            final(self).sessions() == old(self).sessions(),
    {
        let id = crate::ids::new_id();
        if self.attach(id) {
            Some(id)
        } else {
            None
        }
    }
}

} // verus!
