//! The Shell-Git backend: every operation is a shell command string
//! executed over the SSH session, with its captured output interpreted
//! here.
//!
//! The decisions are all in this module — which command to run next during
//! the repository bootstrap, how a path resolves under the checkout, how
//! Git-LFS content is detected and materialized, and how listing text
//! parses — while the embedding application only executes the command
//! strings and hands the captured output back. Every interpolated path
//! fragment passes through [`crate::quote::shell_quote`].

use vstd::prelude::*;
use crate::quote::{shell_quote, spec_shell_quote};
use crate::storage::{Storage, StorageType, StorageError, FileInfo, models, entries_sorted};
use crate::listing::{parse_listing, spec_listing};
use crate::text::{
    spec_trim, trimmed_is, contains_seq, contains_str, first_idx, lemma_first_idx_is, find_char,
    starts_with, matches_at, str_eq,
};
use crate::thumbnail::{spec_thumbnail_outcome, thumbnail_from_bytes};

verus! {

/// Connection parameters of the Shell-Git backend. Immutable once a
/// connection attempt starts.
#[derive(Debug, Clone)]
pub struct GitHubConfig {
    pub repo_url: String,
    pub username: String,
    pub ssh_key_content: String,
    pub branch: String,
    pub local_path: String,
}

/// Whether the remote checkout has been verified and synchronized during
/// the current session. Reset only by disconnecting.
#[derive(Debug, Clone, Copy, PartialEq, Eq, Structural)]
pub enum RepoSyncState {
    NotChecked,
    ClonedAndTracked,
}

/// The Shell-Git backend: its parameters, whether an authenticated session
/// is established, and how far the checkout has been synchronized.
pub struct GitHubStorage {
    pub config: GitHubConfig,
    pub session_open: bool,
    pub sync_state: RepoSyncState,
}

/// `s` with every occurrence of `git@` removed, scanning left to right.
pub open spec fn remove_git_at(s: Seq<char>) -> Seq<char>
    decreases s.len(),
    via remove_git_at_dec
{
    if s.len() == 0 {
        s
    } else if starts_with(s, "git@"@) {
        remove_git_at(s.skip(4))
    } else {
        seq![s[0]] + remove_git_at(s.drop_first())
    }
}

#[via_fn]
proof fn remove_git_at_dec(s: Seq<char>) {
    reveal_strlit("git@");
}

/// The host token of a repository location: `github.com` when it occurs
/// anywhere in the location, otherwise the text before the first slash,
/// stripped of `git@` and cut at the first colon.
pub open spec fn spec_github_host(url: Seq<char>) -> Seq<char> {
    if contains_seq(url, "github.com"@) {
        "github.com"@
    } else {
        let head = url.take(first_idx(url, '/') as int);
        let cleaned = remove_git_at(head);
        cleaned.take(first_idx(cleaned, ':') as int)
    }
}

/// The text of `s` before the first occurrence of `c` (all of `s` when `c`
/// is absent).
fn prefix_before(s: &str, c: char) -> (r: String)
    ensures
        r@ == s@.take(first_idx(s@, c) as int),
{
    let j = find_char(s, 0, c);
    proof {
        lemma_first_idx_is(s@, c, j as nat);
    }
    String::from_str(s.substring_char(0, j))
}

/// Removes every `git@` from `s`, scanning left to right.
fn remove_git_at_exec(s: &str) -> (r: String)
    ensures
        r@ == remove_git_at(s@),
{
    proof {
        reveal_strlit("git@");
    }
    let len = s.unicode_len();
    let mut r = String::new();
    let mut i: usize = 0;
    proof {
        assert(s@.skip(0) =~= s@);
        assert(r@ =~= Seq::<char>::empty());
    }
    while i < len
        invariant
            i <= len,
            len == s@.len(),
            "git@"@.len() == 4,
            remove_git_at(s@) == r@ + remove_git_at(s@.skip(i as int)),
        decreases len - i,
    {
        let ghost rest = s@.skip(i as int);
        let ghost prev = r@;
        if len - i >= 4 && matches_at(s, "git@", i) {
            proof {
                assert(rest.subrange(0, 4) =~= s@.subrange(i as int, i as int + 4));
                assert(starts_with(rest, "git@"@));
                assert(rest.skip(4) =~= s@.skip(i as int + 4));
            }
            i += 4;
        } else {
            proof {
                if len - i >= 4 {
                    assert(rest.subrange(0, 4) =~= s@.subrange(i as int, i as int + 4));
                    assert(!starts_with(rest, "git@"@));
                } else {
                    assert(rest.len() < 4);
                    assert(!starts_with(rest, "git@"@));
                }
                assert(rest[0] == s@[i as int]);
                assert(rest.drop_first() =~= s@.skip(i as int + 1));
            }
            let ch = s.substring_char(i, i + 1);
            r.append(ch);
            proof {
                assert(ch@ =~= seq![s@[i as int]]);
                assert(r@ =~= prev + seq![s@[i as int]]);
                assert(r@ + remove_git_at(s@.skip(i as int + 1)) =~= prev + remove_git_at(rest));
            }
            i += 1;
        }
    }
    proof {
        assert(s@.skip(len as int).len() == 0);
        assert(r@ =~= remove_git_at(s@));
    }
    r
}

/// One step of the repository bootstrap: which remote command runs next.
/// The sequence checks the checkout path, then either refreshes a working
/// tree (fetch, checkout, pull, LFS pull) or replaces whatever is there
/// with a fresh clone (remove if needed, make the directory, clone,
/// install LFS, pull LFS), and in every case finishes by re-asserting LFS
/// tracking and staging the attributes file.
#[derive(Debug, Clone, Copy, PartialEq, Eq, Structural)]
pub enum BootstrapStep {
    /// Ask whether the checkout path exists.
    CheckExists,
    /// Ask whether the existing path is a Git working tree.
    CheckGit,
    /// Refresh the working tree on the configured branch.
    Pull,
    /// Materialize LFS content after a refresh.
    PullLfs,
    /// Remove a path that is not a working tree.
    Remove,
    /// Create the checkout path.
    Mkdir,
    /// Clone the repository on the configured branch.
    Clone,
    /// Install LFS support in the fresh clone.
    LfsInstall,
    /// Materialize LFS content in the fresh clone.
    CloneLfsPull,
    /// Track everything under LFS.
    TrackAll,
    /// Stage the attributes file; a failure here is ignored remotely.
    AddAttributes,
    /// The bootstrap is complete.
    Done,
}

/// The command a bootstrap step runs, over the configured repository
/// location, branch, and checkout path; the finished step runs none.
pub open spec fn spec_step_command(
    url: Seq<char>,
    branch: Seq<char>,
    path: Seq<char>,
    step: BootstrapStep,
) -> Option<Seq<char>> {
    match step {
        BootstrapStep::CheckExists => Option::Some(
            "[ -d "@ + spec_shell_quote(path) + " ] && echo 'exists' || echo 'not_exists'"@,
        ),
        BootstrapStep::CheckGit => Option::Some(
            "[ -d "@ + spec_shell_quote(path) + "/.git ] && echo 'git' || echo 'not_git'"@,
        ),
        BootstrapStep::Pull => Option::Some(
            "cd "@ + spec_shell_quote(path) + " && git fetch origin && git checkout "@
                + spec_shell_quote(branch) + " && git pull origin "@ + spec_shell_quote(branch),
        ),
        BootstrapStep::PullLfs => Option::Some(
            "cd "@ + spec_shell_quote(path) + " && git lfs pull"@,
        ),
        BootstrapStep::Remove => Option::Some("rm -rf "@ + spec_shell_quote(path)),
        BootstrapStep::Mkdir => Option::Some("mkdir -p "@ + spec_shell_quote(path)),
        BootstrapStep::Clone => Option::Some(
            "git clone --branch "@ + spec_shell_quote(branch) + " "@ + spec_shell_quote(url) + " "@
                + spec_shell_quote(path),
        ),
        BootstrapStep::LfsInstall => Option::Some(
            "cd "@ + spec_shell_quote(path) + " && git lfs install"@,
        ),
        BootstrapStep::CloneLfsPull => Option::Some(
            "cd "@ + spec_shell_quote(path) + " && git lfs pull"@,
        ),
        BootstrapStep::TrackAll => Option::Some(
            "cd "@ + spec_shell_quote(path) + " && git lfs track \"*\" && git lfs track \"**/*\""@,
        ),
        BootstrapStep::AddAttributes => Option::Some(
            "cd "@ + spec_shell_quote(path) + " && git add .gitattributes 2>/dev/null || true"@,
        ),
        BootstrapStep::Done => Option::None,
    }
}

/// The step that follows `step` once its command's output is `output`: the
/// existence and working-tree checks branch on the trimmed sentinel word,
/// everything else advances unconditionally.
pub open spec fn spec_step_next(step: BootstrapStep, output: Seq<char>) -> BootstrapStep {
    match step {
        BootstrapStep::CheckExists => if spec_trim(output) == "exists"@ {
            BootstrapStep::CheckGit
        } else {
            BootstrapStep::Mkdir
        },
        BootstrapStep::CheckGit => if spec_trim(output) == "git"@ {
            BootstrapStep::Pull
        } else {
            BootstrapStep::Remove
        },
        BootstrapStep::Pull => BootstrapStep::PullLfs,
        BootstrapStep::PullLfs => BootstrapStep::TrackAll,
        BootstrapStep::Remove => BootstrapStep::Mkdir,
        BootstrapStep::Mkdir => BootstrapStep::Clone,
        BootstrapStep::Clone => BootstrapStep::LfsInstall,
        BootstrapStep::LfsInstall => BootstrapStep::CloneLfsPull,
        BootstrapStep::CloneLfsPull => BootstrapStep::TrackAll,
        BootstrapStep::TrackAll => BootstrapStep::AddAttributes,
        BootstrapStep::AddAttributes => BootstrapStep::Done,
        BootstrapStep::Done => BootstrapStep::Done,
    }
}

/// How many steps the bootstrap can still take from `step`: an upper
/// bound that every transition strictly descends.
pub open spec fn bootstrap_rank(step: BootstrapStep) -> nat {
    match step {
        BootstrapStep::CheckExists => 9,
        BootstrapStep::CheckGit => 8,
        BootstrapStep::Remove => 7,
        BootstrapStep::Mkdir => 6,
        BootstrapStep::Clone => 5,
        BootstrapStep::LfsInstall => 4,
        BootstrapStep::Pull => 4,
        BootstrapStep::CloneLfsPull => 3,
        BootstrapStep::PullLfs => 3,
        BootstrapStep::TrackAll => 2,
        BootstrapStep::AddAttributes => 1,
        BootstrapStep::Done => 0,
    }
}

/// The bootstrap always finishes: whatever output each command captures,
/// every step strictly descends the rank, so a driver that follows
/// [`spec_step_next`] reaches the finished step after finitely many
/// commands — a remote operation runs to completion or to failure, never
/// into a loop.
pub proof fn lemma_bootstrap_terminates(step: BootstrapStep, output: Seq<char>)
    ensures
        step != BootstrapStep::Done ==> bootstrap_rank(spec_step_next(step, output))
            < bootstrap_rank(step),
{
}

/// `s` with every leading `c` removed.
pub open spec fn drop_leading(s: Seq<char>, c: char) -> Seq<char>
    decreases s.len(),
{
    if s.len() > 0 && s[0] == c {
        drop_leading(s.drop_first(), c)
    } else {
        s
    }
}

/// Where a caller's path points under the checkout: the checkout itself
/// for the root, otherwise the checkout path joined with the caller's
/// path, leading slashes stripped.
pub open spec fn spec_resolved_path(local: Seq<char>, path: Seq<char>) -> Seq<char> {
    if path.len() == 0 || path == "/"@ {
        local
    } else {
        local + seq!['/'] + drop_leading(path, '/')
    }
}

/// The long-format listing command against a resolved path, with the
/// not-found sentinel on failure.
pub open spec fn spec_ls_cmd(full: Seq<char>) -> Seq<char> {
    "ls -la --time-style=+%s "@ + spec_shell_quote(full)
        + " 2>/dev/null || echo 'DIR_NOT_FOUND'"@
}

/// A caller path with its leading slashes stripped: how the read path
/// addresses a file relative to the checkout.
pub open spec fn spec_clean_path(path: Seq<char>) -> Seq<char> {
    drop_leading(path, '/')
}

/// The command that asks whether a file is LFS-tracked.
pub open spec fn spec_lfs_check_cmd(local: Seq<char>, file: Seq<char>) -> Seq<char> {
    "cd "@ + spec_shell_quote(local) + " && git lfs ls-files | grep -q "@ + spec_shell_quote(file)
        + " && echo 'lfs' || echo 'regular'"@
}

/// The command that materializes an LFS pointer's real content.
pub open spec fn spec_smudge_cmd(local: Seq<char>, file: Seq<char>) -> Seq<char> {
    "cd "@ + spec_shell_quote(local) + " && git lfs smudge < "@ + spec_shell_quote(file)
}

/// The command that reads a regular file's bytes.
pub open spec fn spec_cat_cmd(local: Seq<char>, file: Seq<char>) -> Seq<char> {
    "cat "@ + spec_shell_quote(local + seq!['/'] + file)
}

impl GitHubStorage {
    /// A fresh backend: parameters stored, no session, checkout unchecked.
    pub fn new(config: GitHubConfig) -> (r: Self)
        ensures
            r.config == config,
            !r.connected(),
            r.sync_state == RepoSyncState::NotChecked,
    {
        GitHubStorage { config, session_open: false, sync_state: RepoSyncState::NotChecked }
    }

    /// The host the transport dials, derived from the repository location.
    pub fn get_github_host(&self) -> (r: String)
        ensures
            r@ == spec_github_host(self.config.repo_url@),
    {
        let url = self.config.repo_url.as_str();
        if contains_str(url, "github.com") {
            String::from_str("github.com")
        } else {
            let head = prefix_before(url, '/');
            let cleaned = remove_git_at_exec(head.as_str());
            prefix_before(cleaned.as_str(), ':')
        }
    }

    /// Records the outcome of the transport's authentication, exactly as
    /// the SFTP backend does; the checkout state is untouched.
    pub fn finish_auth(&mut self, auth_verified: bool) -> (r: Result<(), StorageError>)
        ensures
            final(self).config == old(self).config,
            final(self).sync_state == old(self).sync_state,
            auth_verified ==> r is Ok && final(self).connected(),
            !auth_verified ==> r is Err && r->Err_0 is Auth && !final(self).connected(),
    {
        if auth_verified {
            self.session_open = true;
            Ok(())
        } else {
            self.session_open = false;
            Err(StorageError::Auth(String::from_str("GitHub SSH authentication failed")))
        }
    }

    /// Fails with the not-connected condition unless a session is
    /// established.
    pub fn ensure_connected(&self) -> (r: Result<(), StorageError>)
        ensures
            r is Ok <==> self.connected(),
            r is Err ==> r->Err_0 is NotConnected,
    {
        if self.session_open {
            Ok(())
        } else {
            Err(StorageError::NotConnected)
        }
    }

    /// Where the bootstrap starts: with the existence check when the
    /// checkout is unverified, or straight at the tracking re-assertion
    /// when this session already synchronized it.
    pub fn begin_bootstrap(&self) -> (r: BootstrapStep)
        ensures
            self.sync_state == RepoSyncState::NotChecked ==> r == BootstrapStep::CheckExists,
            self.sync_state == RepoSyncState::ClonedAndTracked ==> r == BootstrapStep::TrackAll,
    {
        match self.sync_state {
            RepoSyncState::NotChecked => BootstrapStep::CheckExists,
            RepoSyncState::ClonedAndTracked => BootstrapStep::TrackAll,
        }
    }

    /// The command one bootstrap step runs against this configuration.
    pub fn bootstrap_command(&self, step: BootstrapStep) -> (r: Option<String>)
        ensures
            r.deep_view() == spec_step_command(
                self.config.repo_url@,
                self.config.branch@,
                self.config.local_path@,
                step,
            ),
    {
        let path = self.config.local_path.as_str();
        let branch = self.config.branch.as_str();
        match step {
            BootstrapStep::CheckExists => {
                let mut c = String::from_str("[ -d ");
                c.append(shell_quote(path).as_str());
                c.append(" ] && echo 'exists' || echo 'not_exists'");
                proof {
                    assert(c@ =~= spec_step_command(
                        self.config.repo_url@,
                        self.config.branch@,
                        self.config.local_path@,
                        step,
                    )->Some_0);
                }
                Some(c)
            },
            BootstrapStep::CheckGit => {
                let mut c = String::from_str("[ -d ");
                c.append(shell_quote(path).as_str());
                c.append("/.git ] && echo 'git' || echo 'not_git'");
                proof {
                    assert(c@ =~= spec_step_command(
                        self.config.repo_url@,
                        self.config.branch@,
                        self.config.local_path@,
                        step,
                    )->Some_0);
                }
                Some(c)
            },
            BootstrapStep::Pull => {
                let mut c = String::from_str("cd ");
                c.append(shell_quote(path).as_str());
                c.append(" && git fetch origin && git checkout ");
                c.append(shell_quote(branch).as_str());
                c.append(" && git pull origin ");
                c.append(shell_quote(branch).as_str());
                proof {
                    assert(c@ =~= spec_step_command(
                        self.config.repo_url@,
                        self.config.branch@,
                        self.config.local_path@,
                        step,
                    )->Some_0);
                }
                Some(c)
            },
            BootstrapStep::PullLfs | BootstrapStep::CloneLfsPull => {
                let mut c = String::from_str("cd ");
                c.append(shell_quote(path).as_str());
                c.append(" && git lfs pull");
                proof {
                    assert(c@ =~= spec_step_command(
                        self.config.repo_url@,
                        self.config.branch@,
                        self.config.local_path@,
                        step,
                    )->Some_0);
                }
                Some(c)
            },
            BootstrapStep::Remove => {
                let mut c = String::from_str("rm -rf ");
                c.append(shell_quote(path).as_str());
                proof {
                    assert(c@ =~= spec_step_command(
                        self.config.repo_url@,
                        self.config.branch@,
                        self.config.local_path@,
                        step,
                    )->Some_0);
                }
                Some(c)
            },
            BootstrapStep::Mkdir => {
                let mut c = String::from_str("mkdir -p ");
                c.append(shell_quote(path).as_str());
                proof {
                    assert(c@ =~= spec_step_command(
                        self.config.repo_url@,
                        self.config.branch@,
                        self.config.local_path@,
                        step,
                    )->Some_0);
                }
                Some(c)
            },
            BootstrapStep::Clone => {
                let mut c = String::from_str("git clone --branch ");
                c.append(shell_quote(branch).as_str());
                c.append(" ");
                c.append(shell_quote(self.config.repo_url.as_str()).as_str());
                c.append(" ");
                c.append(shell_quote(path).as_str());
                proof {
                    assert(c@ =~= spec_step_command(
                        self.config.repo_url@,
                        self.config.branch@,
                        self.config.local_path@,
                        step,
                    )->Some_0);
                }
                Some(c)
            },
            BootstrapStep::LfsInstall => {
                let mut c = String::from_str("cd ");
                c.append(shell_quote(path).as_str());
                c.append(" && git lfs install");
                proof {
                    assert(c@ =~= spec_step_command(
                        self.config.repo_url@,
                        self.config.branch@,
                        self.config.local_path@,
                        step,
                    )->Some_0);
                }
                Some(c)
            },
            BootstrapStep::TrackAll => {
                let mut c = String::from_str("cd ");
                c.append(shell_quote(path).as_str());
                c.append(" && git lfs track \"*\" && git lfs track \"**/*\"");
                proof {
                    assert(c@ =~= spec_step_command(
                        self.config.repo_url@,
                        self.config.branch@,
                        self.config.local_path@,
                        step,
                    )->Some_0);
                }
                Some(c)
            },
            BootstrapStep::AddAttributes => {
                let mut c = String::from_str("cd ");
                c.append(shell_quote(path).as_str());
                c.append(" && git add .gitattributes 2>/dev/null || true");
                proof {
                    assert(c@ =~= spec_step_command(
                        self.config.repo_url@,
                        self.config.branch@,
                        self.config.local_path@,
                        step,
                    )->Some_0);
                }
                Some(c)
            },
            BootstrapStep::Done => None,
        }
    }

    /// Advances the bootstrap by one step on the captured output.
    pub fn bootstrap_next(step: BootstrapStep, output: &str) -> (r: BootstrapStep)
        ensures
            r == spec_step_next(step, output@),
    {
        match step {
            BootstrapStep::CheckExists => {
                if trimmed_is(output, "exists") {
                    BootstrapStep::CheckGit
                } else {
                    BootstrapStep::Mkdir
                }
            },
            BootstrapStep::CheckGit => {
                if trimmed_is(output, "git") {
                    BootstrapStep::Pull
                } else {
                    BootstrapStep::Remove
                }
            },
            BootstrapStep::Pull => BootstrapStep::PullLfs,
            BootstrapStep::PullLfs => BootstrapStep::TrackAll,
            BootstrapStep::Remove => BootstrapStep::Mkdir,
            BootstrapStep::Mkdir => BootstrapStep::Clone,
            BootstrapStep::Clone => BootstrapStep::LfsInstall,
            BootstrapStep::LfsInstall => BootstrapStep::CloneLfsPull,
            BootstrapStep::CloneLfsPull => BootstrapStep::TrackAll,
            BootstrapStep::TrackAll => BootstrapStep::AddAttributes,
            BootstrapStep::AddAttributes => BootstrapStep::Done,
            BootstrapStep::Done => BootstrapStep::Done,
        }
    }

    /// Records that the bootstrap ran to completion. The caller hands
    /// back the step its walk ended on, and only the finished step is
    /// accepted: the checkout is never marked synchronized without a
    /// completed walk.
    pub fn finish_bootstrap(&mut self, step: BootstrapStep)
        requires
            step == BootstrapStep::Done,
        ensures
            final(self).config == old(self).config,
            final(self).connected() == old(self).connected(),
            final(self).sync_state == RepoSyncState::ClonedAndTracked,
    {
        if step == BootstrapStep::Done {
            self.sync_state = RepoSyncState::ClonedAndTracked;
        }
    }

    /// Resolves a caller path under the checkout.
    pub fn resolved_path(&self, path: &str) -> (r: String)
        ensures
            r@ == spec_resolved_path(self.config.local_path@, path@),
    {
        let local = self.config.local_path.as_str();
        if path.unicode_len() == 0 || str_eq(path, "/") {
            String::from_str(local)
        } else {
            let clean = clean_path_exec(path);
            let mut r = String::from_str(local);
            r.append("/");
            r.append(clean.as_str());
            proof {
                reveal_strlit("/");
                assert("/"@ =~= seq!['/']);
                assert(r@ =~= self.config.local_path@ + seq!['/'] + drop_leading(path@, '/'));
            }
            r
        }
    }

    /// The listing command for a caller path; fails when not connected.
    pub fn listing_command(&self, path: &str) -> (r: Result<String, StorageError>)
        ensures
            r is Ok <==> self.connected(),
            r is Ok ==> r->Ok_0@ == spec_ls_cmd(
                spec_resolved_path(self.config.local_path@, path@),
            ),
            r is Err ==> r->Err_0 is NotConnected,
    {
        if let Err(e) = self.ensure_connected() {
            return Err(e);
        }
        let full = self.resolved_path(path);
        let mut c = String::from_str("ls -la --time-style=+%s ");
        c.append(shell_quote(full.as_str()).as_str());
        c.append(" 2>/dev/null || echo 'DIR_NOT_FOUND'");
        proof {
            assert(c@ =~= spec_ls_cmd(spec_resolved_path(self.config.local_path@, path@)));
        }
        Ok(c)
    }

    /// Parses the captured listing output for a caller path into sorted
    /// entries; a sentinel or an empty listing yields no entries rather
    /// than an error.
    pub fn listing_from_output(&self, path: &str, output: &str) -> (r: Vec<FileInfo>)
        ensures
            entries_sorted(models(r@)),
            models(r@).to_multiset() == spec_listing(output@, path@).to_multiset(),
    {
        parse_listing(output, path)
    }

    /// The LFS membership check that opens a file read; fails when not
    /// connected.
    pub fn read_check_command(&self, path: &str) -> (r: Result<String, StorageError>)
        ensures
            r is Ok <==> self.connected(),
            r is Ok ==> r->Ok_0@ == spec_lfs_check_cmd(
                self.config.local_path@,
                spec_clean_path(path@),
            ),
            r is Err ==> r->Err_0 is NotConnected,
    {
        if let Err(e) = self.ensure_connected() {
            return Err(e);
        }
        let clean = clean_path_exec(path);
        let mut c = String::from_str("cd ");
        c.append(shell_quote(self.config.local_path.as_str()).as_str());
        c.append(" && git lfs ls-files | grep -q ");
        c.append(shell_quote(clean.as_str()).as_str());
        c.append(" && echo 'lfs' || echo 'regular'");
        proof {
            assert(c@ =~= spec_lfs_check_cmd(self.config.local_path@, spec_clean_path(path@)));
        }
        Ok(c)
    }

    /// The command that reads the file's bytes, chosen on the membership
    /// check's output: LFS-tracked files resolve through the smudge path,
    /// everything else is read directly.
    pub fn read_resolve_command(&self, path: &str, check_output: &str) -> (r: String)
        ensures
            spec_trim(check_output@) == "lfs"@ ==> r@ == spec_smudge_cmd(
                self.config.local_path@,
                spec_clean_path(path@),
            ),
            spec_trim(check_output@) != "lfs"@ ==> r@ == spec_cat_cmd(
                self.config.local_path@,
                spec_clean_path(path@),
            ),
    {
        let clean = clean_path_exec(path);
        if trimmed_is(check_output, "lfs") {
            let mut c = String::from_str("cd ");
            c.append(shell_quote(self.config.local_path.as_str()).as_str());
            c.append(" && git lfs smudge < ");
            c.append(shell_quote(clean.as_str()).as_str());
            proof {
                assert(c@ =~= spec_smudge_cmd(self.config.local_path@, spec_clean_path(path@)));
            }
            c
        } else {
            let mut full = String::from_str(self.config.local_path.as_str());
            full.append("/");
            full.append(clean.as_str());
            proof {
                reveal_strlit("/");
                assert("/"@ =~= seq!['/']);
                assert(full@ =~= self.config.local_path@ + seq!['/'] + spec_clean_path(path@));
            }
            let mut c = String::from_str("cat ");
            c.append(shell_quote(full.as_str()).as_str());
            proof {
                assert(c@ =~= spec_cat_cmd(self.config.local_path@, spec_clean_path(path@)));
            }
            c
        }
    }

    /// Completes a file read with the bytes the resolve command's channel
    /// captured: they pass through byte-exact, with no text or newline
    /// normalization, so binary content survives the exec-channel path.
    pub fn read_content(&self, bytes: Vec<u8>) -> (r: Result<Vec<u8>, StorageError>)
        ensures
            self.connected() ==> r is Ok && r->Ok_0@ == bytes@,
            !self.connected() ==> r is Err && r->Err_0 is NotConnected,
    {
        if let Err(e) = self.ensure_connected() {
            return Err(e);
        }
        Ok(bytes)
    }

    /// Thumbnails content resolved through the read path, judging the
    /// image format from its magic bytes, never from any filename:
    /// decodable images are scaled and labeled with the re-encoded
    /// format's MIME name, anything else comes back unresized under a
    /// best-guess MIME name. Fails when not connected.
    pub fn get_file_thumbnail(&self, content: &Vec<u8>, max_size: u32) -> (r: Result<
        String,
        StorageError,
    >)
        ensures
            !self.connected() ==> r is Err && r->Err_0 is NotConnected,
            self.connected() ==> spec_thumbnail_outcome(content@, max_size, r),
    {
        if let Err(e) = self.ensure_connected() {
            return Err(e);
        }
        thumbnail_from_bytes(content.as_slice(), max_size)
    }
}

/// Strips the leading slashes off a caller path.
fn clean_path_exec(path: &str) -> (r: String)
    ensures
        r@ == drop_leading(path@, '/'),
{
    let len = path.unicode_len();
    let mut i: usize = 0;
    proof {
        assert(path@.skip(0) =~= path@);
    }
    while i < len && path.get_char(i) == '/'
        invariant
            i <= len,
            len == path@.len(),
            drop_leading(path@, '/') == drop_leading(path@.skip(i as int), '/'),
        decreases len - i,
    {
        proof {
            assert(path@.skip(i as int)[0] == path@[i as int]);
            assert(path@.skip(i as int).drop_first() =~= path@.skip(i as int + 1));
        }
        i += 1;
    }
    proof {
        if i < len {
            assert(path@.skip(i as int)[0] == path@[i as int]);
        }
        assert(drop_leading(path@.skip(i as int), '/') == path@.skip(i as int));
    }
    String::from_str(path.substring_char(i, len))
}

impl Storage for GitHubStorage {
    open spec fn connected(&self) -> bool {
        self.session_open
    }

    open spec fn root_path_spec(&self) -> Seq<char> {
        "/"@
    }

    open spec fn kind(&self) -> StorageType {
        StorageType::GitHub
    }

    fn disconnect(&mut self)
        ensures
            final(self).config == old(self).config,
            final(self).sync_state == RepoSyncState::NotChecked,
    {
        self.session_open = false;
        self.sync_state = RepoSyncState::NotChecked;
    }

    fn is_connected(&self) -> (r: bool) {
        self.session_open
    }

    fn get_root_path(&self) -> (r: String) {
        String::from_str("/")
    }

    fn storage_type(&self) -> (r: StorageType) {
        StorageType::GitHub
    }
}

} // verus!
