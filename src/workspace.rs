//! The client's view of a workspace: its tabs, its forms, and the entries
//! of the folders it shows.
use vstd::prelude::*;
use std::collections::{HashMap, HashSet};
use crate::wire::{DirectoryEntry, Id, RpcRequest, RpcResponse};

verus! {

#[derive(Debug, Clone, Copy, PartialEq, Eq, Structural)]
pub enum BottomTab {
    Output,
    Tasks,
    Terminal,
}

/// An entry shown in a folder tree.
#[derive(Debug, Clone)]
pub struct TreeEntry {
    pub name: String,
    pub path: String,
    pub is_dir: bool,
}

#[derive(Debug, Default)]
pub struct ConnectionForm {
    pub name: String,
    pub proxy_addr: String,
    pub proxy_password: String,
    pub server_name: String,
    pub server_password: String,
    pub prefer_p2p: bool,
}

#[derive(Debug, Default)]
pub struct FolderForm {
    pub name: String,
    pub is_remote: bool,
    pub local_path: String,
    pub remote_connection_name: String,
    pub remote_path: String,
}

#[derive(Debug, Default)]
pub struct TerminalForm {
    pub connection_name: String,
}

/// The dialog that picks a folder on a connected server.
#[derive(Debug, Default)]
pub struct RemoteFolderPicker {
    pub open: bool,
    pub connection_name: String,
    pub selected_path: String,
    pub roots: Vec<String>,
    pub cache: HashMap<String, Vec<TreeEntry>>,
    pub expanded: HashSet<String>,
}

/// What the user interface asks of a connection.
#[derive(Debug)]
pub enum ConnectionCommand {
    SendRpc(RpcRequest),
    Disconnect,
}

/// What a connection reports to the user interface.
#[derive(Debug)]
pub enum ConnectionEvent {
    Status { connection_name: String, message: String },
    Transport { connection_name: String, message: String },
    Connected { connection_name: String },
    RpcResponse { connection_name: String, response: RpcResponse },
    Error { connection_name: String, message: String },
    Closed { connection_name: String, reason: String },
}

/// A request sent to a server whose answer the user interface waits for.
#[derive(Debug, Clone)]
pub enum PendingAction {
    OpenRemoteFile { path: String, title: String, connection_name: String },
    SaveRemoteFile { path: String },
    LoadRemoteDirectory { path: String },
    LoadPickerRoots,
    LoadPickerDirectory { path: String },
    RunTerminal { terminal_id: Id },
}

/// The tree entry that shows a remote directory entry.
pub fn tree_from_entry(entry: DirectoryEntry) -> (r: TreeEntry)
    ensures
        r.name == entry.name,
        r.path == entry.path,
        r.is_dir == entry.is_dir,
{
    TreeEntry { name: entry.name, path: entry.path, is_dir: entry.is_dir }
}

} // verus!
