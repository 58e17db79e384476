//! What the client's dialogs turn into: a connection or a folder of the
//! project, once the form holds what they need.
use vstd::prelude::*;
use crate::project::{
    display_name_for_path, file_name_of, FolderSource, ProjectConnection, ProjectFile,
    ProjectFolder,
};
use crate::workspace::{ConnectionForm, FolderForm};

verus! {

/// A character of Unicode's White_Space property.
pub open spec fn is_white_space(c: char) -> bool {
    let u = c as u32;
    (0x9 <= u && u <= 0xD) || u == 0x20 || u == 0x85 || u == 0xA0 || u == 0x1680 || (0x2000 <= u
        && u <= 0x200A) || u == 0x2028 || u == 0x2029 || u == 0x202F || u == 0x205F || u == 0x3000
}

pub open spec fn trim_start_of(s: Seq<char>) -> Seq<char>
    decreases s.len(),
{
    if s.len() > 0 && is_white_space(s[0]) {
        trim_start_of(s.drop_first())
    } else {
        s
    }
}

pub open spec fn trim_end_of(s: Seq<char>) -> Seq<char>
    decreases s.len(),
{
    if s.len() > 0 && is_white_space(s.last()) {
        trim_end_of(s.drop_last())
    } else {
        s
    }
}

/// A string without its leading and trailing White_Space characters.
pub open spec fn trim_of(s: Seq<char>) -> Seq<char> {
    trim_end_of(trim_start_of(s))
}

/// Relies on std's `str::trim`: it removes the leading and trailing
/// characters of Unicode's White_Space property.
#[verifier::external_body]
fn trimmed(s: &str) -> (r: String)
    ensures
        r@ == trim_of(s@),
{
    s.trim().to_string()
}

/// What a form lacks.
#[derive(Debug, Clone, Copy, PartialEq, Eq, Structural)]
pub enum FormError {
    NameRequired,
    ProxyAddressRequired,
    RemoteFolderIncomplete,
    LocalPathRequired,
}

impl FormError {
    /// The line shown to the user.
    pub fn message(&self) -> (r: String)
        ensures
            r@ == form_error_message(*self),
    {
        match self {
            FormError::NameRequired => "Connection name is required.".to_string(),
            FormError::ProxyAddressRequired => "Proxy address is required.".to_string(),
            FormError::RemoteFolderIncomplete => "Remote folder requires connection and path.".to_string(),
            FormError::LocalPathRequired => "Local folder path is required.".to_string(),
        }
    }
}

pub open spec fn form_error_message(e: FormError) -> Seq<char> {
    match e {
        FormError::NameRequired => "Connection name is required."@,
        FormError::ProxyAddressRequired => "Proxy address is required."@,
        FormError::RemoteFolderIncomplete => "Remote folder requires connection and path."@,
        FormError::LocalPathRequired => "Local folder path is required."@,
    }
}

/// A form for a new connection: the default proxy address, peer-to-peer
/// preferred, everything else empty.
pub fn new_connection_form() -> (r: ConnectionForm)
    ensures
        r.proxy_addr@ == "ws://127.0.0.1:9000/ws"@,
        r.prefer_p2p,
        r.name@.len() == 0,
        r.proxy_password@.len() == 0,
        r.server_name@.len() == 0,
        r.server_password@.len() == 0,
{
    ConnectionForm {
        name: String::new(),
        proxy_addr: crate::project::default_connection_form_addr(),
        proxy_password: String::new(),
        server_name: String::new(),
        server_password: String::new(),
        prefer_p2p: true,
    }
}

/// A connection from fields already trimmed: it needs a name and a proxy
/// address.
pub fn connection_from_parts(
    name: String,
    proxy_addr: String,
    proxy_password: String,
    server_name: String,
    server_password: String,
    prefer_p2p: bool,
) -> (r: Result<ProjectConnection, FormError>)
    ensures
        name@.len() == 0 ==> r == Err::<ProjectConnection, FormError>(FormError::NameRequired),
        name@.len() != 0 && proxy_addr@.len() == 0 ==> r == Err::<ProjectConnection, FormError>(
            FormError::ProxyAddressRequired,
        ),
        name@.len() != 0 && proxy_addr@.len() != 0 ==> r == Ok::<ProjectConnection, FormError>(
            ProjectConnection {
                name,
                proxy_addr,
                proxy_password,
                server_name,
                server_password,
                prefer_p2p,
            },
        ),
{
    if name.as_str().unicode_len() == 0 {
        return Err(FormError::NameRequired);
    }
    if proxy_addr.as_str().unicode_len() == 0 {
        return Err(FormError::ProxyAddressRequired);
    }
    Ok(ProjectConnection { name, proxy_addr, proxy_password, server_name, server_password, prefer_p2p })
}

/// The connection that a filled form describes: name, proxy address and
/// server name trimmed; passwords as typed.
pub fn connection_from_form(form: &ConnectionForm) -> (r: Result<ProjectConnection, FormError>)
    ensures
        trim_of(form.name@).len() == 0 ==> r == Err::<ProjectConnection, FormError>(
            FormError::NameRequired,
        ),
        trim_of(form.name@).len() != 0 && trim_of(form.proxy_addr@).len() == 0 ==> r == Err::<
            ProjectConnection,
            FormError,
        >(FormError::ProxyAddressRequired),
        trim_of(form.name@).len() != 0 && trim_of(form.proxy_addr@).len() != 0 ==> {
            &&& r is Ok
            &&& r->Ok_0.name@ == trim_of(form.name@)
            &&& r->Ok_0.proxy_addr@ == trim_of(form.proxy_addr@)
            &&& r->Ok_0.proxy_password == form.proxy_password
            &&& r->Ok_0.server_name@ == trim_of(form.server_name@)
            &&& r->Ok_0.server_password == form.server_password
            &&& r->Ok_0.prefer_p2p == form.prefer_p2p
        },
{
    connection_from_parts(
        trimmed(form.name.as_str()),
        trimmed(form.proxy_addr.as_str()),
        form.proxy_password.clone(),
        trimmed(form.server_name.as_str()),
        form.server_password.clone(),
        form.prefer_p2p,
    )
}

/// The name a folder is shown under: the name typed, trimmed, or else the
/// final component of its path.
pub open spec fn folder_name(typed: Seq<char>, path: Seq<char>) -> Seq<char> {
    if trim_of(typed).len() != 0 {
        trim_of(typed)
    } else {
        match file_name_of(path) {
            Some(n) => n,
            None => path,
        }
    }
}

fn name_for_folder(typed: &str, path: &str) -> (r: String)
    ensures
        r@ == folder_name(typed@, path@),
{
    let t = trimmed(typed);
    if t.as_str().unicode_len() != 0 {
        t
    } else {
        display_name_for_path(path)
    }
}

/// The folder that a filled form describes.
pub fn folder_from_form(form: &FolderForm) -> (r: Result<ProjectFolder, FormError>)
    ensures
        form.is_remote ==> if trim_of(form.remote_connection_name@).len() == 0 || trim_of(
            form.remote_path@,
        ).len() == 0 {
            r == Err::<ProjectFolder, FormError>(FormError::RemoteFolderIncomplete)
        } else {
            &&& r is Ok
            &&& r->Ok_0.name@ == folder_name(form.name@, form.remote_path@)
            &&& r->Ok_0.source == FolderSource::Remote {
                connection_name: form.remote_connection_name,
                path: form.remote_path,
            }
        },
        !form.is_remote ==> if trim_of(form.local_path@).len() == 0 {
            r == Err::<ProjectFolder, FormError>(FormError::LocalPathRequired)
        } else {
            &&& r is Ok
            &&& r->Ok_0.name@ == folder_name(form.name@, form.local_path@)
            &&& r->Ok_0.source == FolderSource::Local { path: form.local_path }
        },
{
    if form.is_remote {
        let conn = trimmed(form.remote_connection_name.as_str());
        let path = trimmed(form.remote_path.as_str());
        if conn.as_str().unicode_len() == 0 || path.as_str().unicode_len() == 0 {
            return Err(FormError::RemoteFolderIncomplete);
        }
        Ok(
            ProjectFolder {
                name: name_for_folder(form.name.as_str(), form.remote_path.as_str()),
                source: FolderSource::Remote {
                    connection_name: form.remote_connection_name.clone(),
                    path: form.remote_path.clone(),
                },
            },
        )
    } else {
        let path = trimmed(form.local_path.as_str());
        if path.as_str().unicode_len() == 0 {
            return Err(FormError::LocalPathRequired);
        }
        Ok(
            ProjectFolder {
                name: name_for_folder(form.name.as_str(), form.local_path.as_str()),
                source: FolderSource::Local { path: form.local_path.clone() },
            },
        )
    }
}

/// Holds of a connection not named `name`.
pub open spec fn other_name(name: Seq<char>) -> spec_fn(ProjectConnection) -> bool {
    |c: ProjectConnection| c.name@ != name
}

impl ProjectFile {
    /// Adds `connection`, replacing any connection of the same name.
    pub fn put_connection(&mut self, connection: ProjectConnection)
        ensures
            final(self).connections@ == old(self).connections@.filter(
                other_name(connection.name@),
            ).push(connection),
            final(self).folders == old(self).folders,
    {
        let ghost keep = other_name(connection.name@);
        let ghost all = self.connections@;
        let mut kept: Vec<ProjectConnection> = Vec::new();
        let mut i: usize = 0;
        proof {
            assert(all.take(0) =~= Seq::<ProjectConnection>::empty());
            assert(all.take(0).filter(keep) =~= Seq::<ProjectConnection>::empty());
        }
        while i < self.connections.len()
            invariant
                i <= all.len(),
                all == self.connections@,
                keep == other_name(connection.name@),
                kept@ == all.take(i as int).filter(keep),
            decreases all.len() - i,
        {
            proof {
                assert(all.take(i + 1) =~= all.take(i as int).push(all[i as int]));
                all.take(i as int).lemma_filter_push(all[i as int], keep);
            }
            if self.connections[i].name != connection.name {
                let c = ProjectConnection {
                    name: self.connections[i].name.clone(),
                    proxy_addr: self.connections[i].proxy_addr.clone(),
                    proxy_password: self.connections[i].proxy_password.clone(),
                    server_name: self.connections[i].server_name.clone(),
                    server_password: self.connections[i].server_password.clone(),
                    prefer_p2p: self.connections[i].prefer_p2p,
                };
                kept.push(c);
            }
            i = i + 1;
        }
        proof {
            assert(all.take(all.len() as int) =~= all);
        }
        kept.push(connection);
        self.connections = kept;
    }
}

} // verus!
