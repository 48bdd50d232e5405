//! Shared value types of the storage interface: the backend discriminator,
//! the directory-entry record, the content-kind mapping, and the sorted
//! listing order both backends present.

use vstd::prelude::*;
use crate::text::{
    lower_is, lex_le, last_idx, lemma_last_idx_is, lemma_lex_le_total, lemma_lex_le_trans,
};

verus! {

broadcast use vstd::multiset::group_multiset_axioms, vstd::seq_lib::group_to_multiset_ensures;

/// Which transport serves the current connection. Fixed at construction.
#[derive(Debug, Clone, Copy, PartialEq, Eq, Structural)]
pub enum StorageType {
    Ec2,
    GitHub,
}

impl StorageType {
    /// Stable textual form of the discriminator.
    pub fn as_str(&self) -> (r: &'static str)
        ensures
            *self == StorageType::Ec2 ==> r@ == "ec2"@,
            *self == StorageType::GitHub ==> r@ == "github"@,
    {
        match self {
            StorageType::Ec2 => "ec2",
            StorageType::GitHub => "github",
        }
    }

    /// Parses the textual form back, ignoring ASCII case; any other text is
    /// rejected with a message naming it.
    pub fn parse(s: &str) -> (r: Result<StorageType, String>)
        ensures
            lower_is(s@, "ec2"@) ==> r == Result::<StorageType, String>::Ok(StorageType::Ec2),
            lower_is(s@, "github"@) ==> r == Result::<StorageType, String>::Ok(
                StorageType::GitHub,
            ),
            !lower_is(s@, "ec2"@) && !lower_is(s@, "github"@) ==> r is Err,
    {
        proof {
            reveal_strlit("ec2");
            reveal_strlit("github");
        }
        if crate::text::eq_ignore_ascii_case(s, "ec2") {
            Ok(StorageType::Ec2)
        } else if crate::text::eq_ignore_ascii_case(s, "github") {
            Ok(StorageType::GitHub)
        } else {
            Err(String::from_str("Unknown storage type: ").concat(s))
        }
    }
}

impl core::str::FromStr for StorageType {
    type Err = String;

    fn from_str(s: &str) -> Result<Self, Self::Err> {
        Self::parse(s)
    }
}

/// The failures this layer reports. Every public operation returns a
/// result; none aborts the host process.
#[derive(Debug, Clone)]
pub enum StorageError {
    /// TCP, handshake, or timeout failure while reaching the remote host.
    Network(String),
    /// The key was rejected, or the session did not report itself
    /// authenticated after the authentication call.
    Auth(String),
    /// A data operation was attempted with no connection established.
    NotConnected,
    /// A shell command central to the repository bootstrap failed.
    RemoteCommand(String),
    /// Image decode or encode failure while thumbnailing, or undecodable
    /// key material.
    Decode(String),
    /// An SFTP protocol operation (open, read, stat) failed.
    Protocol(String),
}

impl StorageError {
    /// A human-readable account of the failure.
    pub fn message(&self) -> (r: String)
        ensures
            self is NotConnected ==> r@ == "Not connected"@,
    {
        match self {
            StorageError::Network(m) => String::from_str("Network error: ").concat(m.as_str()),
            StorageError::Auth(m) => String::from_str("Authentication failed: ").concat(
                m.as_str(),
            ),
            StorageError::NotConnected => String::from_str("Not connected"),
            StorageError::RemoteCommand(m) => String::from_str("Remote command failed: ").concat(
                m.as_str(),
            ),
            StorageError::Decode(m) => String::from_str("Decode error: ").concat(m.as_str()),
            StorageError::Protocol(m) => String::from_str("Protocol error: ").concat(m.as_str()),
        }
    }
}

/// The contract both backends share for the connection-independent part of
/// their behaviour. The data operations take backend-specific shapes (each
/// consumes what its transport captured), so they stand on the backends
/// themselves.
pub trait Storage: Sized {
    /// Whether a connection is established: false at construction, true
    /// only after a connect whose authentication was verified.
    spec fn connected(&self) -> bool;

    /// The path a fresh browsing session opens.
    spec fn root_path_spec(&self) -> Seq<char>;

    /// The fixed backend discriminator.
    spec fn kind(&self) -> StorageType;

    /// Releases the connection; a no-op when already disconnected. The
    /// backend keeps its identity: root path and discriminator survive.
    fn disconnect(&mut self)
        ensures
            !final(self).connected(),
            final(self).root_path_spec() == old(self).root_path_spec(),
            final(self).kind() == old(self).kind(),
    ;

    /// Whether a connection is established.
    fn is_connected(&self) -> (r: bool)
        ensures
            r == self.connected(),
    ;

    /// The path a fresh browsing session opens.
    fn get_root_path(&self) -> (r: String)
        ensures
            r@ == self.root_path_spec(),
    ;

    /// The fixed backend discriminator.
    fn storage_type(&self) -> (r: StorageType)
        ensures
            r == self.kind(),
    ;
}

/// `s` without its trailing slashes.
pub open spec fn strip_trailing_slashes(s: Seq<char>) -> Seq<char>
    decreases s.len(),
{
    if s.len() > 0 && s.last() == '/' {
        strip_trailing_slashes(s.drop_last())
    } else {
        s
    }
}

/// The final path component of `s`: what follows the last slash, trailing
/// slashes ignored.
pub open spec fn file_part(s: Seq<char>) -> Seq<char> {
    let t = strip_trailing_slashes(s);
    t.skip(last_idx(t, '/') + 1)
}

/// The extension of a filename: what follows the last dot of its final
/// component, unless that component has no dot past its first character (a
/// bare name, or a hidden file such as one starting with a single dot).
pub open spec fn spec_extension(s: Seq<char>) -> Option<Seq<char>> {
    let f = file_part(s);
    let p = last_idx(f, '.');
    if p <= 0 {
        None
    } else {
        Some(f.skip(p + 1))
    }
}

/// Extracts the extension of a filename or path.
pub fn extension_of(s: &str) -> (r: Option<String>)
    ensures
        r.deep_view() == spec_extension(s@),
{
    let len = s.unicode_len();
    let mut end = len;
    proof {
        assert(s@.take(len as int) =~= s@);
    }
    while end > 0 && s.get_char(end - 1) == '/'
        invariant
            end <= len,
            len == s@.len(),
            strip_trailing_slashes(s@) == strip_trailing_slashes(s@.take(end as int)),
        decreases end,
    {
        proof {
            assert(s@.take(end as int).last() == s@[end - 1]);
            assert(s@.take(end as int).drop_last() =~= s@.take(end as int - 1));
        }
        end -= 1;
    }
    let ghost t = s@.take(end as int);
    proof {
        if end > 0 {
            assert(t.last() == s@[end - 1]);
        }
        assert(strip_trailing_slashes(s@) == t);
    }
    let mut j = end;
    while j > 0 && s.get_char(j - 1) != '/'
        invariant
            j <= end <= len,
            len == s@.len(),
            forall|k: int| j <= k < end ==> s@[k] != '/',
        decreases j,
    {
        j -= 1;
    }
    proof {
        assert(forall|k: int| j <= k < end ==> t[k] == s@[k]);
        lemma_last_idx_is(t, '/', j - 1);
        assert(t.skip(j as int) =~= s@.subrange(j as int, end as int));
    }
    let ghost f = t.skip(j as int);
    let mut p = end;
    while p > j && s.get_char(p - 1) != '.'
        invariant
            j <= p <= end <= len,
            len == s@.len(),
            forall|k: int| p <= k < end ==> s@[k] != '.',
        decreases p,
    {
        p -= 1;
    }
    proof {
        assert(forall|k: int| 0 <= k < f.len() ==> f[k] == s@[j + k]);
    }
    if p == j {
        proof {
            lemma_last_idx_is(f, '.', -1);
        }
        None
    } else if p - 1 == j {
        proof {
            assert(f[p - 1 - j as int] == '.');
            lemma_last_idx_is(f, '.', p - 1 - j as int);
        }
        None
    } else {
        proof {
            assert(f[p - 1 - j as int] == '.');
            lemma_last_idx_is(f, '.', p - 1 - j as int);
            assert(f.skip(p - j as int) =~= s@.subrange(p as int, end as int));
        }
        Some(String::from_str(s.substring_char(p, end)))
    }
}

/// The content kind derived from a filename's extension: a MIME name for
/// the kinds the client distinguishes, and the plain tag `"file"` for
/// everything else, including names without an extension.
pub open spec fn spec_mime(name: Seq<char>) -> Seq<char> {
    match spec_extension(name) {
        Option::None => "file"@,
        Option::Some(e) => {
            if lower_is(e, "jpg"@) || lower_is(e, "jpeg"@) {
                "image/jpeg"@
            } else if lower_is(e, "png"@) {
                "image/png"@
            } else if lower_is(e, "gif"@) {
                "image/gif"@
            } else if lower_is(e, "webp"@) {
                "image/webp"@
            } else if lower_is(e, "bmp"@) {
                "image/bmp"@
            } else if lower_is(e, "svg"@) {
                "image/svg+xml"@
            } else if lower_is(e, "heic"@) || lower_is(e, "heif"@) {
                "image/heic"@
            } else if lower_is(e, "mp4"@) {
                "video/mp4"@
            } else if lower_is(e, "mov"@) {
                "video/quicktime"@
            } else if lower_is(e, "avi"@) {
                "video/x-msvideo"@
            } else if lower_is(e, "mkv"@) {
                "video/x-matroska"@
            } else if lower_is(e, "webm"@) {
                "video/webm"@
            } else if lower_is(e, "m4v"@) {
                "video/x-m4v"@
            } else if lower_is(e, "mp3"@) {
                "audio/mpeg"@
            } else if lower_is(e, "wav"@) {
                "audio/wav"@
            } else if lower_is(e, "flac"@) {
                "audio/flac"@
            } else if lower_is(e, "aac"@) {
                "audio/aac"@
            } else if lower_is(e, "ogg"@) {
                "audio/ogg"@
            } else if lower_is(e, "m4a"@) {
                "audio/mp4"@
            } else if lower_is(e, "pdf"@) {
                "application/pdf"@
            } else if lower_is(e, "doc"@) {
                "application/msword"@
            } else if lower_is(e, "docx"@) {
                "application/vnd.openxmlformats-officedocument.wordprocessingml.document"@
            } else if lower_is(e, "xls"@) {
                "application/vnd.ms-excel"@
            } else if lower_is(e, "xlsx"@) {
                "application/vnd.openxmlformats-officedocument.spreadsheetml.sheet"@
            } else if lower_is(e, "ppt"@) {
                "application/vnd.ms-powerpoint"@
            } else if lower_is(e, "pptx"@) {
                "application/vnd.openxmlformats-officedocument.presentationml.presentation"@
            } else if lower_is(e, "txt"@) || lower_is(e, "log"@) {
                "text/plain"@
            } else if lower_is(e, "md"@) {
                "text/markdown"@
            } else if lower_is(e, "json"@) {
                "application/json"@
            } else if lower_is(e, "xml"@) {
                "application/xml"@
            } else if lower_is(e, "csv"@) {
                "text/csv"@
            } else if lower_is(e, "zip"@) {
                "application/zip"@
            } else if lower_is(e, "tar"@) {
                "application/x-tar"@
            } else if lower_is(e, "gz"@) {
                "application/gzip"@
            } else if lower_is(e, "rar"@) {
                "application/vnd.rar"@
            } else if lower_is(e, "7z"@) {
                "application/x-7z-compressed"@
            } else {
                "file"@
            }
        },
    }
}

/// Maps a filename to its content kind. Every name gets a kind; unknown
/// extensions and names without one are tagged `"file"`.
pub fn detect_mime_type(filename: &str) -> (r: Option<String>)
    ensures
        r is Some,
        r.deep_view() == Some(spec_mime(filename@)),
{
    let ext_opt = extension_of(filename);
    let e = match ext_opt {
        None => {
            return Some(String::from_str("file"));
        },
        Some(e) => e,
    };
    let ext = e.as_str();
    let m: &'static str = if crate::text::eq_ignore_ascii_case(ext, "jpg")
        || crate::text::eq_ignore_ascii_case(ext, "jpeg") {
        "image/jpeg"
    } else if crate::text::eq_ignore_ascii_case(ext, "png") {
        "image/png"
    } else if crate::text::eq_ignore_ascii_case(ext, "gif") {
        "image/gif"
    } else if crate::text::eq_ignore_ascii_case(ext, "webp") {
        "image/webp"
    } else if crate::text::eq_ignore_ascii_case(ext, "bmp") {
        "image/bmp"
    } else if crate::text::eq_ignore_ascii_case(ext, "svg") {
        "image/svg+xml"
    } else if crate::text::eq_ignore_ascii_case(ext, "heic")
        || crate::text::eq_ignore_ascii_case(ext, "heif") {
        "image/heic"
    } else if crate::text::eq_ignore_ascii_case(ext, "mp4") {
        "video/mp4"
    } else if crate::text::eq_ignore_ascii_case(ext, "mov") {
        "video/quicktime"
    } else if crate::text::eq_ignore_ascii_case(ext, "avi") {
        "video/x-msvideo"
    } else if crate::text::eq_ignore_ascii_case(ext, "mkv") {
        "video/x-matroska"
    } else if crate::text::eq_ignore_ascii_case(ext, "webm") {
        "video/webm"
    } else if crate::text::eq_ignore_ascii_case(ext, "m4v") {
        "video/x-m4v"
    } else if crate::text::eq_ignore_ascii_case(ext, "mp3") {
        "audio/mpeg"
    } else if crate::text::eq_ignore_ascii_case(ext, "wav") {
        "audio/wav"
    } else if crate::text::eq_ignore_ascii_case(ext, "flac") {
        "audio/flac"
    } else if crate::text::eq_ignore_ascii_case(ext, "aac") {
        "audio/aac"
    } else if crate::text::eq_ignore_ascii_case(ext, "ogg") {
        "audio/ogg"
    } else if crate::text::eq_ignore_ascii_case(ext, "m4a") {
        "audio/mp4"
    } else if crate::text::eq_ignore_ascii_case(ext, "pdf") {
        "application/pdf"
    } else if crate::text::eq_ignore_ascii_case(ext, "doc") {
        "application/msword"
    } else if crate::text::eq_ignore_ascii_case(ext, "docx") {
        "application/vnd.openxmlformats-officedocument.wordprocessingml.document"
    } else if crate::text::eq_ignore_ascii_case(ext, "xls") {
        "application/vnd.ms-excel"
    } else if crate::text::eq_ignore_ascii_case(ext, "xlsx") {
        "application/vnd.openxmlformats-officedocument.spreadsheetml.sheet"
    } else if crate::text::eq_ignore_ascii_case(ext, "ppt") {
        "application/vnd.ms-powerpoint"
    } else if crate::text::eq_ignore_ascii_case(ext, "pptx") {
        "application/vnd.openxmlformats-officedocument.presentationml.presentation"
    } else if crate::text::eq_ignore_ascii_case(ext, "txt")
        || crate::text::eq_ignore_ascii_case(ext, "log") {
        "text/plain"
    } else if crate::text::eq_ignore_ascii_case(ext, "md") {
        "text/markdown"
    } else if crate::text::eq_ignore_ascii_case(ext, "json") {
        "application/json"
    } else if crate::text::eq_ignore_ascii_case(ext, "xml") {
        "application/xml"
    } else if crate::text::eq_ignore_ascii_case(ext, "csv") {
        "text/csv"
    } else if crate::text::eq_ignore_ascii_case(ext, "zip") {
        "application/zip"
    } else if crate::text::eq_ignore_ascii_case(ext, "tar") {
        "application/x-tar"
    } else if crate::text::eq_ignore_ascii_case(ext, "gz") {
        "application/gzip"
    } else if crate::text::eq_ignore_ascii_case(ext, "rar") {
        "application/vnd.rar"
    } else if crate::text::eq_ignore_ascii_case(ext, "7z") {
        "application/x-7z-compressed"
    } else {
        "file"
    };
    Some(String::from_str(m))
}

/// One entry of a directory listing, as handed to the caller.
#[derive(Debug, Clone)]
pub struct FileInfo {
    pub name: String,
    pub path: String,
    pub size: u64,
    pub is_dir: bool,
    pub modified: Option<u64>,
    pub mime_type: Option<String>,
    pub thumbnail: Option<String>,
}

/// The mathematical content of a directory entry.
pub ghost struct EntrySpec {
    pub name: Seq<char>,
    pub path: Seq<char>,
    pub size: u64,
    pub is_dir: bool,
    pub modified: Option<u64>,
    pub mime_type: Option<Seq<char>>,
    pub thumbnail: Option<Seq<char>>,
}

impl View for FileInfo {
    type V = EntrySpec;

    open spec fn view(&self) -> EntrySpec {
        EntrySpec {
            name: self.name@,
            path: self.path@,
            size: self.size,
            is_dir: self.is_dir,
            modified: self.modified,
            mime_type: self.mime_type.deep_view(),
            thumbnail: self.thumbnail.deep_view(),
        }
    }
}

/// The models of a sequence of entries.
pub open spec fn models(s: Seq<FileInfo>) -> Seq<EntrySpec> {
    s.map_values(|f: FileInfo| f@)
}

/// Listing order: every directory before every file, and names
/// lexicographic within each group.
pub open spec fn entry_le(a: EntrySpec, b: EntrySpec) -> bool {
    if a.is_dir != b.is_dir {
        a.is_dir
    } else {
        lex_le(a.name, b.name)
    }
}

/// Whether a listing is in the order both backends promise.
pub open spec fn entries_sorted(s: Seq<EntrySpec>) -> bool {
    forall|i: int, j: int| 0 <= i < j < s.len() ==> entry_le(s[i], s[j])
}

/// Compares two entries in listing order.
fn entry_le_exec(a: &FileInfo, b: &FileInfo) -> (r: bool)
    ensures
        r == entry_le(a@, b@),
{
    if a.is_dir != b.is_dir {
        a.is_dir
    } else {
        crate::text::lex_le_exec(a.name.as_str(), b.name.as_str())
    }
}

/// Sorts a listing into the promised order by insertion, keeping exactly
/// the same entries.
pub fn sort_entries(v: Vec<FileInfo>) -> (r: Vec<FileInfo>)
    ensures
        entries_sorted(models(r@)),
        models(r@).to_multiset() == models(v@).to_multiset(),
{
    let mut r: Vec<FileInfo> = Vec::new();
    let mut src = v;
    proof {
        assert(models(r@).to_multiset().add(models(src@).to_multiset()) =~= models(
            v@,
        ).to_multiset());
    }
    while src.len() > 0
        invariant
            entries_sorted(models(r@)),
            models(r@).to_multiset().add(models(src@).to_multiset()) == models(
                v@,
            ).to_multiset(),
        decreases src.len(),
    {
        let ghost old_src = src@;
        let ghost old_r = r@;
        let x = src.remove(0);
        proof {
            assert(models(old_src)[0] == x@);
            assert(models(old_src).remove(0) =~= models(src@));
            assert(models(src@).to_multiset() == models(old_src).to_multiset().remove(x@));
        }
        let pos = insertion_point(&r, &x);
        r.insert(pos, x);
        proof {
            assert(models(r@) =~= models(old_r).insert(pos as int, x@));
            lemma_sorted_insert(models(old_r), pos as int, x@);
            seq_multiset_insert(models(old_r), pos as int, x@);
            assert(models(old_src).to_multiset().count(x@) > 0) by {
                assert(models(old_src).contains(x@));
            }
            assert(models(r@).to_multiset().add(models(src@).to_multiset()) =~= models(
                v@,
            ).to_multiset());
        }
    }
    proof {
        assert(models(src@).to_multiset() =~= vstd::multiset::Multiset::<EntrySpec>::empty());
        assert(models(r@).to_multiset() =~= models(v@).to_multiset());
    }
    r
}

/// Finds where `x` belongs in the sorted listing `r`: after everything
/// ordered no later than `x`, before everything else.
fn insertion_point(r: &Vec<FileInfo>, x: &FileInfo) -> (pos: usize)
    requires
        entries_sorted(models(r@)),
    ensures
        pos <= r@.len(),
        forall|k: int| 0 <= k < pos ==> entry_le(#[trigger] models(r@)[k], x@),
        forall|k: int| pos <= k < r@.len() ==> entry_le(x@, #[trigger] models(r@)[k]),
{
    let n = r.len();
    let mut pos: usize = 0;
    while pos < n
        invariant
            pos <= n,
            n == r@.len(),
            entries_sorted(models(r@)),
            forall|k: int| 0 <= k < pos ==> entry_le(#[trigger] models(r@)[k], x@),
        decreases n - pos,
    {
        if !entry_le_exec(&r[pos], x) {
            proof {
                lemma_entry_le_total(models(r@)[pos as int], x@);
                assert forall|k: int| pos <= k < r@.len() implies entry_le(
                    x@,
                    #[trigger] models(r@)[k],
                ) by {
                    if k > pos {
                        assert(entry_le(models(r@)[pos as int], models(r@)[k]));
                        lemma_entry_le_trans(x@, models(r@)[pos as int], models(r@)[k]);
                    }
                }
            }
            return pos;
        }
        pos += 1;
    }
    pos
}

/// What the listing order guarantees of any sorted listing: no directory
/// ever follows a file, and names ascend lexicographically within each
/// group.
pub proof fn lemma_sorted_listing_shape(s: Seq<EntrySpec>)
    requires
        entries_sorted(s),
    ensures
        forall|i: int, j: int| 0 <= i < j < s.len() && !s[i].is_dir ==> !s[j].is_dir,
        forall|i: int, j: int|
            0 <= i < j < s.len() && s[i].is_dir == s[j].is_dir ==> lex_le(s[i].name, s[j].name),
{
    assert forall|i: int, j: int| 0 <= i < j < s.len() && !s[i].is_dir implies !s[j].is_dir by {
        assert(entry_le(s[i], s[j]));
    }
    assert forall|i: int, j: int|
        0 <= i < j < s.len() && s[i].is_dir == s[j].is_dir implies lex_le(
        s[i].name,
        s[j].name,
    ) by {
        assert(entry_le(s[i], s[j]));
    }
}

/// The listing order relates every pair of entries.
pub proof fn lemma_entry_le_total(a: EntrySpec, b: EntrySpec)
    ensures
        entry_le(a, b) || entry_le(b, a),
{
    if a.is_dir == b.is_dir {
        lemma_lex_le_total(a.name, b.name);
    }
}

/// The listing order is transitive.
pub proof fn lemma_entry_le_trans(a: EntrySpec, b: EntrySpec, c: EntrySpec)
    requires
        entry_le(a, b),
        entry_le(b, c),
    ensures
        entry_le(a, c),
{
    if a.is_dir == b.is_dir && b.is_dir == c.is_dir {
        lemma_lex_le_trans(a.name, b.name, c.name);
    }
}

/// Inserting `x` at a position that respects the order keeps the sequence
/// sorted.
proof fn lemma_sorted_insert(s: Seq<EntrySpec>, pos: int, x: EntrySpec)
    requires
        entries_sorted(s),
        0 <= pos <= s.len(),
        forall|k: int| 0 <= k < pos ==> entry_le(#[trigger] s[k], x),
        forall|k: int| pos <= k < s.len() ==> entry_le(x, #[trigger] s[k]),
    ensures
        entries_sorted(s.insert(pos, x)),
{
    let t = s.insert(pos, x);
    assert forall|i: int, j: int| 0 <= i < j < t.len() implies entry_le(t[i], t[j]) by {
        if i < pos && j < pos {
            assert(t[i] == s[i] && t[j] == s[j]);
        } else if i < pos && j == pos {
            assert(t[i] == s[i] && t[j] == x);
        } else if i < pos && j > pos {
            assert(t[i] == s[i] && t[j] == s[j - 1]);
        } else if i == pos {
            assert(t[i] == x && t[j] == s[j - 1]);
        } else {
            assert(t[i] == s[i - 1] && t[j] == s[j - 1]);
        }
    }
}

/// A sequence's multiset grows by exactly the inserted element.
proof fn seq_multiset_insert(s: Seq<EntrySpec>, pos: int, x: EntrySpec)
    requires
        0 <= pos <= s.len(),
    ensures
        s.insert(pos, x).to_multiset() == s.to_multiset().insert(x),
{
    let t = s.insert(pos, x);
    assert(t.remove(pos) =~= s);
    assert(t[pos] == x);
    assert(t.contains(x));
    assert(t.to_multiset().count(x) > 0);
    assert(s.to_multiset() == t.to_multiset().remove(x));
    assert(t.to_multiset() =~= s.to_multiset().insert(x));
}

} // verus!
