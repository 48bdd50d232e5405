//! A standalone SSH/SFTP connection with its own entry record and a
//! coarser content-kind mapping, as the minimal browsing client uses it.
//!
//! The transport runs in the embedding application; the session here
//! exists only once authentication has been verified, so its operations
//! need no connection gate.

use vstd::prelude::*;
use crate::ec2::{SftpEntry, SftpEntrySpec};
use crate::storage::{EntrySpec, entries_sorted, models, sort_entries, spec_extension};
use crate::text::lower_is;
use crate::thumbnail::{spec_data_uri, data_uri};
use crate::utils::b64_encoding;

verus! {

/// Connection parameters: host, user, base64-carried key, port.
#[derive(Debug, Clone)]
pub struct ConnectionConfig {
    pub host: String,
    pub username: String,
    pub pem_content: String,
    pub port: u16,
}

/// One entry of a directory listing, as this client hands it out.
#[derive(Debug, Clone)]
pub struct FileInfo {
    pub name: String,
    pub path: String,
    pub size: u64,
    pub is_dir: bool,
    pub modified: Option<u64>,
    pub mime_type: Option<String>,
    pub thumbnail: Option<String>,
}

impl View for FileInfo {
    type V = EntrySpec;

    open spec fn view(&self) -> EntrySpec {
        EntrySpec {
            name: self.name@,
            path: self.path@,
            size: self.size,
            is_dir: self.is_dir,
            modified: self.modified,
            mime_type: self.mime_type.deep_view(),
            thumbnail: self.thumbnail.deep_view(),
        }
    }
}

/// The models of a sequence of entries.
pub open spec fn ssh_models(s: Seq<FileInfo>) -> Seq<EntrySpec> {
    s.map_values(|f: FileInfo| f@)
}

/// An established connection: it exists only after authentication was
/// verified.
pub struct SshConnection {
    pub config: ConnectionConfig,
}

/// The coarse content kind this client derives from a filename: real MIME
/// names for images and PDF, plain category words for the rest, nothing
/// for a name without an extension.
pub open spec fn spec_ssh_mime(name: Seq<char>) -> Option<Seq<char>> {
    match spec_extension(name) {
        Option::None => Option::None,
        Option::Some(e) => Option::Some(
            if lower_is(e, "jpg"@) || lower_is(e, "jpeg"@) {
                "image/jpeg"@
            } else if lower_is(e, "png"@) {
                "image/png"@
            } else if lower_is(e, "gif"@) {
                "image/gif"@
            } else if lower_is(e, "webp"@) {
                "image/webp"@
            } else if lower_is(e, "mp4"@) || lower_is(e, "mov"@) || lower_is(e, "avi"@)
                || lower_is(e, "mkv"@) || lower_is(e, "webm"@) {
                "video"@
            } else if lower_is(e, "pdf"@) {
                "application/pdf"@
            } else if lower_is(e, "doc"@) || lower_is(e, "docx"@) {
                "document"@
            } else if lower_is(e, "txt"@) || lower_is(e, "md"@) || lower_is(e, "json"@)
                || lower_is(e, "xml"@) || lower_is(e, "csv"@) {
                "text"@
            } else {
                "file"@
            },
        ),
    }
}

/// The listing entry a raw SFTP entry denotes under this client's kinds.
pub open spec fn ssh_entry_of_raw(e: SftpEntrySpec) -> EntrySpec {
    EntrySpec {
        name: e.name,
        path: e.path,
        size: match e.size {
            Option::Some(n) => n,
            Option::None => 0u64,
        },
        is_dir: e.is_dir,
        modified: e.mtime,
        mime_type: if e.is_dir {
            Option::None
        } else {
            spec_ssh_mime(e.name)
        },
        thumbnail: Option::None,
    }
}

/// The listing entries a sequence of raw entries denotes.
pub open spec fn ssh_raw_models(s: Seq<SftpEntry>) -> Seq<EntrySpec> {
    s.map_values(|e: SftpEntry| ssh_entry_of_raw(e@))
}

/// Maps a filename to this client's coarse content kind.
pub fn detect_mime_type(filename: &str) -> (r: Option<String>)
    ensures
        r.deep_view() == spec_ssh_mime(filename@),
{
    let e = match crate::storage::extension_of(filename) {
        None => {
            return None;
        },
        Some(e) => e,
    };
    let ext = e.as_str();
    let m: &'static str = if crate::text::eq_ignore_ascii_case(ext, "jpg")
        || crate::text::eq_ignore_ascii_case(ext, "jpeg") {
        "image/jpeg"
    } else if crate::text::eq_ignore_ascii_case(ext, "png") {
        "image/png"
    } else if crate::text::eq_ignore_ascii_case(ext, "gif") {
        "image/gif"
    } else if crate::text::eq_ignore_ascii_case(ext, "webp") {
        "image/webp"
    } else if crate::text::eq_ignore_ascii_case(ext, "mp4") || crate::text::eq_ignore_ascii_case(
        ext,
        "mov",
    ) || crate::text::eq_ignore_ascii_case(ext, "avi") || crate::text::eq_ignore_ascii_case(
        ext,
        "mkv",
    ) || crate::text::eq_ignore_ascii_case(ext, "webm") {
        "video"
    } else if crate::text::eq_ignore_ascii_case(ext, "pdf") {
        "application/pdf"
    } else if crate::text::eq_ignore_ascii_case(ext, "doc") || crate::text::eq_ignore_ascii_case(
        ext,
        "docx",
    ) {
        "document"
    } else if crate::text::eq_ignore_ascii_case(ext, "txt") || crate::text::eq_ignore_ascii_case(
        ext,
        "md",
    ) || crate::text::eq_ignore_ascii_case(ext, "json") || crate::text::eq_ignore_ascii_case(
        ext,
        "xml",
    ) || crate::text::eq_ignore_ascii_case(ext, "csv") {
        "text"
    } else {
        "file"
    };
    Some(String::from_str(m))
}

impl SshConnection {
    /// Completes a connection attempt: the session exists exactly when the
    /// transport's authenticated flag was verified true; otherwise the
    /// attempt fails as an authentication error and nothing is kept.
    pub fn finish_connect(config: ConnectionConfig, auth_verified: bool) -> (r: Result<
        SshConnection,
        String,
    >)
        ensures
            auth_verified <==> r is Ok,
            r is Ok ==> r->Ok_0.config == config,
            r is Err ==> r->Err_0@ == "Authentication failed"@,
    {
        if auth_verified {
            Ok(SshConnection { config })
        } else {
            Err(String::from_str("Authentication failed"))
        }
    }

    /// Turns raw SFTP entries into the sorted listing this client hands
    /// out: directories first, names lexicographic within each group.
    pub fn list_from_entries(&self, entries: &Vec<SftpEntry>) -> (r: Vec<FileInfo>)
        ensures
            entries_sorted(ssh_models(r@)),
            ssh_models(r@).to_multiset() == ssh_raw_models(entries@).to_multiset(),
    {
        let mut v: Vec<crate::storage::FileInfo> = Vec::new();
        let n = entries.len();
        let mut i: usize = 0;
        proof {
            assert(models(v@) =~= ssh_raw_models(entries@.take(0)));
        }
        while i < n
            invariant
                i <= n,
                n == entries@.len(),
                models(v@) == ssh_raw_models(entries@.take(i as int)),
            decreases n - i,
        {
            let ghost prev = models(v@);
            let e = &entries[i];
            let mime_type = if e.is_dir {
                None
            } else {
                detect_mime_type(e.name.as_str())
            };
            let size = match e.size {
                Some(s) => s,
                None => 0,
            };
            let f = crate::storage::FileInfo {
                name: e.name.clone(),
                path: e.path.clone(),
                size,
                is_dir: e.is_dir,
                modified: e.mtime,
                mime_type,
                thumbnail: None,
            };
            proof {
                assert(f@ == ssh_entry_of_raw(entries@[i as int]@));
            }
            v.push(f);
            proof {
                assert(models(v@) =~= prev.push(f@));
                assert(entries@.take(i as int + 1).drop_last() =~= entries@.take(i as int));
                assert(ssh_raw_models(entries@.take(i as int + 1)) =~= ssh_raw_models(
                    entries@.take(i as int),
                ).push(ssh_entry_of_raw(entries@[i as int]@)));
            }
            i += 1;
        }
        proof {
            assert(entries@.take(n as int) =~= entries@);
        }
        let sorted = sort_entries(v);
        let mut out: Vec<FileInfo> = Vec::new();
        let m = sorted.len();
        let mut j: usize = 0;
        proof {
            assert(ssh_models(out@) =~= models(sorted@).take(0));
        }
        while j < m
            invariant
                j <= m,
                m == sorted@.len(),
                entries_sorted(models(sorted@)),
                models(sorted@).to_multiset() == ssh_raw_models(entries@).to_multiset(),
                ssh_models(out@) == models(sorted@).take(j as int),
            decreases m - j,
        {
            let ghost prev = ssh_models(out@);
            let s = &sorted[j];
            let mime_type = match &s.mime_type {
                Some(mt) => Some(mt.clone()),
                None => None,
            };
            let thumbnail = match &s.thumbnail {
                Some(t) => Some(t.clone()),
                None => None,
            };
            let f = FileInfo {
                name: s.name.clone(),
                path: s.path.clone(),
                size: s.size,
                is_dir: s.is_dir,
                modified: s.modified,
                mime_type,
                thumbnail,
            };
            proof {
                assert(f@ == models(sorted@)[j as int]);
            }
            out.push(f);
            proof {
                assert(ssh_models(out@) =~= prev.push(f@));
                assert(models(sorted@).take(j as int + 1).drop_last() =~= models(sorted@).take(
                    j as int,
                ));
                assert(ssh_models(out@) =~= models(sorted@).take(j as int + 1));
            }
            j += 1;
        }
        proof {
            assert(models(sorted@).take(m as int) =~= models(sorted@));
            assert(ssh_models(out@) == models(sorted@));
        }
        out
    }

    /// Wraps raw file content for inline preview, tagged as JPEG image
    /// data as this client's caller expects.
    pub fn get_file_thumbnail(&self, content: &Vec<u8>) -> (r: String)
        ensures
            r@ == spec_data_uri("image/jpeg"@, b64_encoding(content@)),
    {
        data_uri("image/jpeg", content.as_slice())
    }
}

/// Completes a connection attempt under the free-function name the caller
/// uses.
pub fn connect_ssh(config: ConnectionConfig, auth_verified: bool) -> (r: Result<
    SshConnection,
    String,
>)
    ensures
        auth_verified <==> r is Ok,
        r is Ok ==> r->Ok_0.config == config,
        r is Err ==> r->Err_0@ == "Authentication failed"@,
{
    SshConnection::finish_connect(config, auth_verified)
}

} // verus!
