//! The SFTP backend: connection parameters, session lifecycle, and the
//! conversion of raw SFTP directory entries into the shared listing shape.
//!
//! The transport itself — TCP, the SSH handshake, public-key
//! authentication, and the SFTP protocol calls — runs in the embedding
//! application, which reports the verified authentication flag and the raw
//! entries it read back into the methods here.

use vstd::prelude::*;
use crate::storage::{
    Storage, StorageType, StorageError, FileInfo, EntrySpec, models, entries_sorted, sort_entries,
    spec_mime, detect_mime_type,
};
use crate::text::{
    spec_decimal, u64_to_string, str_eq, starts_with, starts_with_exec, lower_is,
    eq_ignore_ascii_case,
};
use crate::thumbnail::{spec_data_uri, data_uri, ImgFormat, render_scaled, spec_render_outcome};
use crate::utils::b64_encoding;

verus! {

/// Connection parameters of the SFTP backend. Immutable once a connection
/// attempt starts.
#[derive(Debug, Clone)]
pub struct Ec2Config {
    pub host: String,
    pub username: String,
    pub pem_content: String,
    pub port: u16,
}

/// The SFTP backend: its parameters and whether an authenticated session
/// is established.
pub struct Ec2Storage {
    pub config: Ec2Config,
    pub session_open: bool,
}

/// One raw directory entry as the SFTP protocol reports it: the stat data
/// before any interpretation.
#[derive(Debug, Clone)]
pub struct SftpEntry {
    pub name: String,
    pub path: String,
    pub size: Option<u64>,
    pub is_dir: bool,
    pub mtime: Option<u64>,
}

/// The mathematical content of a raw SFTP entry.
pub ghost struct SftpEntrySpec {
    pub name: Seq<char>,
    pub path: Seq<char>,
    pub size: Option<u64>,
    pub is_dir: bool,
    pub mtime: Option<u64>,
}

impl View for SftpEntry {
    type V = SftpEntrySpec;

    open spec fn view(&self) -> SftpEntrySpec {
        SftpEntrySpec {
            name: self.name@,
            path: self.path@,
            size: self.size,
            is_dir: self.is_dir,
            mtime: self.mtime,
        }
    }
}

/// The listing entry a raw SFTP entry denotes: an absent size reads as
/// zero, and files get their content kind from the name.
pub open spec fn entry_of_raw(e: SftpEntrySpec) -> EntrySpec {
    EntrySpec {
        name: e.name,
        path: e.path,
        size: match e.size {
            Option::Some(n) => n,
            Option::None => 0u64,
        },
        is_dir: e.is_dir,
        modified: e.mtime,
        mime_type: if e.is_dir {
            Option::None
        } else {
            Option::Some(spec_mime(e.name))
        },
        thumbnail: Option::None,
    }
}

/// The listing entries a sequence of raw entries denotes.
pub open spec fn raw_models(s: Seq<SftpEntry>) -> Seq<EntrySpec> {
    s.map_values(|e: SftpEntry| entry_of_raw(e@))
}

impl Ec2Storage {
    /// A fresh backend: parameters stored, no connection.
    pub fn new(config: Ec2Config) -> (r: Self)
        ensures
            r.config == config,
            !r.connected(),
    {
        Ec2Storage { config, session_open: false }
    }

    /// The `host:port` endpoint the transport dials.
    pub fn endpoint(&self) -> (r: String)
        ensures
            r@ == self.config.host@ + ":"@ + spec_decimal(self.config.port as nat),
    {
        let mut r = String::from_str(self.config.host.as_str());
        r.append(":");
        let port = u64_to_string(self.config.port as u64);
        r.append(port.as_str());
        proof {
            assert(r@ =~= self.config.host@ + ":"@ + spec_decimal(self.config.port as nat));
        }
        r
    }

    /// Records the outcome of the transport's authentication: the session
    /// is kept exactly when the authenticated flag was verified true after
    /// the authentication call; otherwise nothing is stored and the
    /// attempt fails as an authentication error.
    pub fn finish_connect(&mut self, auth_verified: bool) -> (r: Result<(), StorageError>)
        ensures
            final(self).config == old(self).config,
            auth_verified ==> r is Ok && final(self).connected(),
            !auth_verified ==> r is Err && r->Err_0 is Auth && !final(self).connected(),
    {
        if auth_verified {
            self.session_open = true;
            Ok(())
        } else {
            self.session_open = false;
            Err(StorageError::Auth(String::from_str("Authentication failed")))
        }
    }

    /// Fails with the not-connected condition unless a session is
    /// established.
    pub fn ensure_connected(&self) -> (r: Result<(), StorageError>)
        ensures
            r is Ok <==> self.connected(),
            r is Err ==> r->Err_0 is NotConnected,
    {
        if self.session_open {
            Ok(())
        } else {
            Err(StorageError::NotConnected)
        }
    }

    /// Turns the raw entries read from the remote directory into the
    /// caller-visible listing: sizes defaulted, kinds derived, and the
    /// whole sorted into the promised order. Fails when not connected.
    pub fn list_from_entries(&self, entries: &Vec<SftpEntry>) -> (r: Result<
        Vec<FileInfo>,
        StorageError,
    >)
        ensures
            self.connected() ==> r is Ok && entries_sorted(models(r->Ok_0@)) && models(
                r->Ok_0@,
            ).to_multiset() == raw_models(entries@).to_multiset(),
            !self.connected() ==> r is Err && r->Err_0 is NotConnected,
    {
        if let Err(e) = self.ensure_connected() {
            return Err(e);
        }
        let mut v: Vec<FileInfo> = Vec::new();
        let n = entries.len();
        let mut i: usize = 0;
        proof {
            assert(models(v@) =~= raw_models(entries@.take(0)));
        }
        while i < n
            invariant
                i <= n,
                n == entries@.len(),
                models(v@) == raw_models(entries@.take(i as int)),
            decreases n - i,
        {
            let ghost prev = models(v@);
            let e = &entries[i];
            let mime_type = if e.is_dir {
                None
            } else {
                detect_mime_type(e.name.as_str())
            };
            let size = match e.size {
                Some(s) => s,
                None => 0,
            };
            let f = FileInfo {
                name: e.name.clone(),
                path: e.path.clone(),
                size,
                is_dir: e.is_dir,
                modified: e.mtime,
                mime_type,
                thumbnail: None,
            };
            proof {
                assert(f@ == entry_of_raw(entries@[i as int]@));
            }
            v.push(f);
            proof {
                assert(models(v@) =~= prev.push(f@));
                assert(entries@.take(i as int + 1).drop_last() =~= entries@.take(i as int));
                assert(raw_models(entries@.take(i as int + 1)) =~= raw_models(
                    entries@.take(i as int),
                ).push(entry_of_raw(entries@[i as int]@)));
            }
            i += 1;
        }
        proof {
            assert(entries@.take(n as int) =~= entries@);
        }
        Ok(sort_entries(v))
    }

    /// The re-encoding format the extension calls for, up to ASCII case:
    /// PNG, GIF, and WebP keep their container, everything else becomes
    /// JPEG.
    pub fn format_for_path(path: &str) -> (r: ImgFormat)
        ensures
            r == spec_ec2_format(path@),
    {
        match crate::storage::extension_of(path) {
            Some(e) => {
                if eq_ignore_ascii_case(e.as_str(), "png") {
                    ImgFormat::Png
                } else if eq_ignore_ascii_case(e.as_str(), "gif") {
                    ImgFormat::Gif
                } else if eq_ignore_ascii_case(e.as_str(), "webp") {
                    ImgFormat::WebP
                } else {
                    ImgFormat::Jpeg
                }
            },
            None => ImgFormat::Jpeg,
        }
    }

    /// Thumbnails the file content read from `path`: content whose
    /// extension names an image kind is decoded, scaled to the exact
    /// geometry, re-encoded in the extension-derived format, and labeled
    /// with the re-encoded format's MIME name; anything else is returned
    /// unresized as an inline payload under its extension-derived MIME
    /// name.
    pub fn get_file_thumbnail(&self, path: &str, content: &Vec<u8>, max_size: u32) -> (r: Result<
        String,
        StorageError,
    >)
        ensures
            !self.connected() ==> r is Err && r->Err_0 is NotConnected,
            self.connected() && !starts_with(spec_mime(path@), "image/"@) ==> r is Ok
                && r->Ok_0@ == spec_data_uri(spec_mime(path@), b64_encoding(content@)),
            self.connected() && starts_with(spec_mime(path@), "image/"@) ==> spec_render_outcome(
                content@,
                spec_ec2_format(path@),
                max_size,
                r,
            ),
    {
        if let Err(e) = self.ensure_connected() {
            return Err(e);
        }
        let mime = match detect_mime_type(path) {
            Some(m) => m,
            None => {
                proof {
                    assert(false);
                }
                unreached()
            },
        };
        if starts_with_exec(mime.as_str(), "image/") {
            let fmt = Self::format_for_path(path);
            render_scaled(content.as_slice(), fmt, max_size)
        } else {
            Ok(data_uri(mime.as_str(), content.as_slice()))
        }
    }
}

/// The re-encoding format `path`'s extension calls for, up to ASCII case.
pub open spec fn spec_ec2_format(path: Seq<char>) -> ImgFormat {
    match crate::storage::spec_extension(path) {
        Option::Some(e) => {
            if lower_is(e, "png"@) {
                ImgFormat::Png
            } else if lower_is(e, "gif"@) {
                ImgFormat::Gif
            } else if lower_is(e, "webp"@) {
                ImgFormat::WebP
            } else {
                ImgFormat::Jpeg
            }
        },
        Option::None => ImgFormat::Jpeg,
    }
}

impl Storage for Ec2Storage {
    open spec fn connected(&self) -> bool {
        self.session_open
    }

    open spec fn root_path_spec(&self) -> Seq<char> {
        if self.config.username@ == "root"@ {
            "/root"@
        } else {
            "/home/"@ + self.config.username@
        }
    }

    open spec fn kind(&self) -> StorageType {
        StorageType::Ec2
    }

    fn disconnect(&mut self)
        ensures
            final(self).config == old(self).config,
    {
        self.session_open = false;
    }

    fn is_connected(&self) -> (r: bool) {
        self.session_open
    }

    fn get_root_path(&self) -> (r: String) {
        if str_eq(self.config.username.as_str(), "root") {
            String::from_str("/root")
        } else {
            let mut r = String::from_str("/home/");
            r.append(self.config.username.as_str());
            proof {
                assert(r@ =~= "/home/"@ + self.config.username@);
            }
            r
        }
    }

    fn storage_type(&self) -> (r: StorageType) {
        StorageType::Ec2
    }
}

} // verus!
