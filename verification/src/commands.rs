//! The dispatch layer the caller's requests go through: backend selection,
//! the connection slot, and the request and response records of the
//! boundary.
//!
//! The process-wide slot holds at most one backend at a time; its
//! exclusive lock lives in the embedding application, which passes the
//! locked contents into the functions here.

use vstd::prelude::*;
use crate::ec2::{Ec2Config, Ec2Storage};
use crate::github::{GitHubConfig, GitHubStorage};
use crate::storage::{Storage, StorageType};

verus! {

/// The one active backend, tagged by transport.
pub enum StorageBackend {
    Ec2(Ec2Storage),
    GitHub(GitHubStorage),
}

impl Storage for StorageBackend {
    open spec fn connected(&self) -> bool {
        match self {
            StorageBackend::Ec2(s) => s.connected(),
            StorageBackend::GitHub(s) => s.connected(),
        }
    }

    open spec fn root_path_spec(&self) -> Seq<char> {
        match self {
            StorageBackend::Ec2(s) => s.root_path_spec(),
            StorageBackend::GitHub(s) => s.root_path_spec(),
        }
    }

    open spec fn kind(&self) -> StorageType {
        match self {
            StorageBackend::Ec2(s) => s.kind(),
            StorageBackend::GitHub(s) => s.kind(),
        }
    }

    fn disconnect(&mut self)
        ensures
            (*old(self)) is Ec2 ==> (*final(self)) is Ec2
                && (*final(self))->Ec2_0.config == (*old(self))->Ec2_0.config,
            (*old(self)) is GitHub ==> (*final(self)) is GitHub
                && (*final(self))->GitHub_0.config == (*old(self))->GitHub_0.config
                && (*final(self))->GitHub_0.sync_state == crate::github::RepoSyncState::NotChecked,
    {
        match self {
            StorageBackend::Ec2(s) => s.disconnect(),
            StorageBackend::GitHub(s) => s.disconnect(),
        }
    }

    fn is_connected(&self) -> (r: bool) {
        match self {
            StorageBackend::Ec2(s) => s.is_connected(),
            StorageBackend::GitHub(s) => s.is_connected(),
        }
    }

    fn get_root_path(&self) -> (r: String) {
        match self {
            StorageBackend::Ec2(s) => s.get_root_path(),
            StorageBackend::GitHub(s) => s.get_root_path(),
        }
    }

    fn storage_type(&self) -> (r: StorageType) {
        match self {
            StorageBackend::Ec2(s) => s.storage_type(),
            StorageBackend::GitHub(s) => s.storage_type(),
        }
    }
}

/// What a caller supplies to open an SFTP connection.
#[derive(Debug)]
pub struct Ec2ConnectRequest {
    pub host: String,
    pub username: String,
    pub pem_content: String,
    pub port: Option<u16>,
}

impl Ec2ConnectRequest {
    /// The connection parameters the request denotes; the port defaults
    /// to 22.
    pub fn into_config(self) -> (r: Ec2Config)
        ensures
            r.host == self.host,
            r.username == self.username,
            r.pem_content == self.pem_content,
            r.port == match self.port {
                Option::Some(p) => p,
                Option::None => 22u16,
            },
    {
        let port = match self.port {
            Some(p) => p,
            None => 22,
        };
        Ec2Config { host: self.host, username: self.username, pem_content: self.pem_content, port }
    }
}

/// What a caller supplies to open a Shell-Git connection.
#[derive(Debug)]
pub struct GitHubConnectRequest {
    pub repo_url: String,
    pub username: String,
    pub ssh_key_content: String,
    pub branch: Option<String>,
    pub local_path: Option<String>,
}

impl GitHubConnectRequest {
    /// The connection parameters the request denotes; the branch defaults
    /// to `main` and the checkout path to `/tmp/image-repo`.
    pub fn into_config(self) -> (r: GitHubConfig)
        ensures
            r.repo_url == self.repo_url,
            r.username == self.username,
            r.ssh_key_content == self.ssh_key_content,
            match self.branch {
                Option::Some(b) => r.branch == b,
                Option::None => r.branch@ == "main"@,
            },
            match self.local_path {
                Option::Some(p) => r.local_path == p,
                Option::None => r.local_path@ == "/tmp/image-repo"@,
            },
    {
        let branch = match self.branch {
            Some(b) => b,
            None => String::from_str("main"),
        };
        let local_path = match self.local_path {
            Some(p) => p,
            None => String::from_str("/tmp/image-repo"),
        };
        GitHubConfig {
            repo_url: self.repo_url,
            username: self.username,
            ssh_key_content: self.ssh_key_content,
            branch,
            local_path,
        }
    }
}

/// What the caller hears back from a connection attempt.
#[derive(Debug)]
pub struct ConnectResponse {
    pub success: bool,
    pub message: String,
    pub storage_type: Option<String>,
    pub root_path: Option<String>,
}

impl ConnectResponse {
    /// The response to a connection that succeeded.
    pub fn connected(kind: StorageType, root_path: String) -> (r: ConnectResponse)
        ensures
            r.success,
            kind == StorageType::Ec2 ==> r.message@ == "Connected to EC2 successfully"@,
            kind == StorageType::GitHub ==> r.message@
                == "Connected to GitHub repository successfully"@,
            r.storage_type matches Option::Some(t) && (kind == StorageType::Ec2 ==> t@ == "ec2"@)
                && (kind == StorageType::GitHub ==> t@ == "github"@),
            r.root_path == Option::Some(root_path),
    {
        let message = match kind {
            StorageType::Ec2 => String::from_str("Connected to EC2 successfully"),
            StorageType::GitHub => String::from_str("Connected to GitHub repository successfully"),
        };
        ConnectResponse {
            success: true,
            message,
            storage_type: Some(String::from_str(kind.as_str())),
            root_path: Some(root_path),
        }
    }

    /// The response to a connection attempt that failed: nothing is
    /// stored, and the message carries the failure.
    pub fn failed(message: String) -> (r: ConnectResponse)
        ensures
            !r.success,
            r.message == message,
            r.storage_type is None,
            r.root_path is None,
    {
        ConnectResponse { success: false, message, storage_type: None, root_path: None }
    }
}

/// Whether the slot holds a connected backend: false for an empty slot.
pub fn slot_is_connected(slot: &Option<StorageBackend>) -> (r: bool)
    ensures
        r == match slot {
            Option::Some(b) => b.connected(),
            Option::None => false,
        },
{
    match slot {
        Some(b) => b.is_connected(),
        None => false,
    }
}

/// The discriminator of the backend the slot holds, if any.
pub fn slot_storage_type(slot: &Option<StorageBackend>) -> (r: Option<String>)
    ensures
        match slot {
            Option::Some(b) => r matches Option::Some(t) && (b.kind() == StorageType::Ec2 ==> t@
                == "ec2"@) && (b.kind() == StorageType::GitHub ==> t@ == "github"@),
            Option::None => r is None,
        },
{
    match slot {
        Some(b) => Some(String::from_str(b.storage_type().as_str())),
        None => None,
    }
}

/// Empties the slot, disconnecting whatever it held: safe on an empty
/// slot, and the slot never reports a connection afterwards.
pub fn slot_disconnect(slot: &mut Option<StorageBackend>)
    ensures
        *final(slot) is None,
{
    let taken = slot.take();
    match taken {
        Some(mut b) => {
            b.disconnect();
        },
        None => {},
    }
}

} // verus!
