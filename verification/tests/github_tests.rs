use remote_storage::github::{BootstrapStep, GitHubConfig, GitHubStorage, RepoSyncState};
use remote_storage::quote::shell_quote;
use remote_storage::storage::{Storage, StorageType, StorageError};
use remote_storage::utils::base64_encode;

fn create_test_config() -> GitHubConfig {
    GitHubConfig {
        repo_url: "git@github.com:testuser/testrepo.git".to_string(),
        username: "git".to_string(),
        ssh_key_content: base64_encode(b"test key"),
        branch: "main".to_string(),
        local_path: "/tmp/testrepo".to_string(),
    }
}

#[test]
fn test_github_storage_creation() {
    let config = create_test_config();
    let storage = GitHubStorage::new(config);
    assert!(!storage.is_connected());
    assert_eq!(storage.storage_type(), StorageType::GitHub);
}

#[test]
fn test_get_root_path() {
    let config = create_test_config();
    let storage = GitHubStorage::new(config);
    assert_eq!(storage.get_root_path(), "/");
}

#[test]
fn test_get_github_host() {
    let config = GitHubConfig {
        repo_url: "git@github.com:testuser/testrepo.git".to_string(),
        username: "git".to_string(),
        ssh_key_content: "dGVzdA==".to_string(),
        branch: "main".to_string(),
        local_path: "/tmp/testrepo".to_string(),
    };
    let storage = GitHubStorage::new(config);
    assert_eq!(storage.get_github_host(), "github.com");
}

#[test]
fn github_test_disconnect_when_not_connected() {
    let config = create_test_config();
    let mut storage = GitHubStorage::new(config);
    storage.disconnect();
    assert!(!storage.is_connected());
}

#[test]
fn host_of_other_remote_is_extracted() {
    let mut config = create_test_config();
    config.repo_url = "git@code.example.org:team/repo.git".to_string();
    let storage = GitHubStorage::new(config);
    assert_eq!(storage.get_github_host(), "code.example.org");
}

#[test]
fn test_shell_quote_simple_path() {
    let result = shell_quote("/tmp/test");
    assert!(result.starts_with('\'') || result == "/tmp/test");
}

#[test]
fn test_shell_quote_path_with_spaces() {
    let result = shell_quote("/tmp/my test folder");
    assert!(result.contains("my test folder"));
}

#[test]
fn test_shell_quote_path_with_special_chars() {
    let result = shell_quote("/tmp/test$(whoami)");
    assert!(result.contains("$(whoami)"));
    assert!(result.starts_with('\''));
}

#[test]
fn shell_quote_exact_forms() {
    assert_eq!(shell_quote("/tmp/test"), "/tmp/test");
    assert_eq!(shell_quote(""), "''");
    assert_eq!(shell_quote("/tmp/my test folder"), "'/tmp/my test folder'");
    assert_eq!(shell_quote("a'b"), "'a'\\''b'");
    assert_eq!(shell_quote("`ls`"), "'`ls`'");
}

#[test]
fn bootstrap_commands_quote_hostile_paths() {
    let mut config = create_test_config();
    config.local_path = "/tmp/my repo".to_string();
    let storage = GitHubStorage::new(config);
    let cmd = storage.bootstrap_command(BootstrapStep::CheckExists).unwrap();
    assert_eq!(cmd, "[ -d '/tmp/my repo' ] && echo 'exists' || echo 'not_exists'");
    let rm = storage.bootstrap_command(BootstrapStep::Remove).unwrap();
    assert_eq!(rm, "rm -rf '/tmp/my repo'");
    assert!(storage.bootstrap_command(BootstrapStep::Done).is_none());
}

fn drive_bootstrap(storage: &GitHubStorage, outputs: &[(&str)]) -> Vec<BootstrapStep> {
    let mut visited = Vec::new();
    let mut step = storage.begin_bootstrap();
    let mut out_iter = outputs.iter();
    while step != BootstrapStep::Done {
        visited.push(step);
        assert!(storage.bootstrap_command(step).is_some());
        let output = out_iter.next().copied().unwrap_or("");
        step = GitHubStorage::bootstrap_next(step, output);
    }
    visited
}

#[test]
fn bootstrap_replaces_a_path_that_is_no_working_tree() {
    let mut storage = GitHubStorage::new(create_test_config());
    storage.finish_auth(true).unwrap();
    assert_eq!(storage.sync_state, RepoSyncState::NotChecked);
    let visited = drive_bootstrap(&storage, &["exists\n", "not_git\n"]);
    assert_eq!(
        visited,
        vec![
            BootstrapStep::CheckExists,
            BootstrapStep::CheckGit,
            BootstrapStep::Remove,
            BootstrapStep::Mkdir,
            BootstrapStep::Clone,
            BootstrapStep::LfsInstall,
            BootstrapStep::CloneLfsPull,
            BootstrapStep::TrackAll,
            BootstrapStep::AddAttributes,
        ]
    );
    storage.finish_bootstrap(BootstrapStep::Done);
    assert_eq!(storage.sync_state, RepoSyncState::ClonedAndTracked);
}

#[test]
fn bootstrap_refreshes_an_existing_working_tree() {
    let storage = GitHubStorage::new(create_test_config());
    let visited = drive_bootstrap(&storage, &["exists\n", "git\n"]);
    assert_eq!(
        visited,
        vec![
            BootstrapStep::CheckExists,
            BootstrapStep::CheckGit,
            BootstrapStep::Pull,
            BootstrapStep::PullLfs,
            BootstrapStep::TrackAll,
            BootstrapStep::AddAttributes,
        ]
    );
}

#[test]
fn bootstrap_after_sync_only_reasserts_tracking() {
    let mut storage = GitHubStorage::new(create_test_config());
    storage.finish_bootstrap(BootstrapStep::Done);
    let visited = drive_bootstrap(&storage, &[]);
    assert_eq!(visited, vec![BootstrapStep::TrackAll, BootstrapStep::AddAttributes]);
}

#[test]
fn listing_of_missing_directory_is_empty_not_error() {
    let storage = GitHubStorage::new(create_test_config());
    let listed = storage.listing_from_output("/", "DIR_NOT_FOUND\n");
    assert!(listed.is_empty());
    let empty = storage.listing_from_output("/", "total 0\n");
    assert!(empty.is_empty());
}

#[test]
fn listing_parses_rows_and_sorts() {
    let storage = GitHubStorage::new(create_test_config());
    let output = "total 12\n\
        drwxr-xr-x 2 user group 4096 Nov 14 12:00 photos\n\
        -rw-r--r-- 1 user group 123 Nov 14 12:00 b.txt\n\
        -rw-r--r-- 1 user group 5 Nov 14 12:00 a name.txt\n\
        -rw-r--r-- 1 user group 77 Nov 14 12:00 .gitattributes\n\
        drwxr-xr-x 9 user group 4096 Nov 14 12:00 .git\n\
        broken row\n";
    let listed = storage.listing_from_output("/", output);
    let names: Vec<&str> = listed.iter().map(|f| f.name.as_str()).collect();
    assert_eq!(names, vec!["photos", "a name.txt", "b.txt"]);
    assert!(listed[0].is_dir);
    assert_eq!(listed[0].path, "/photos");
    assert_eq!(listed[1].size, 5);
    assert_eq!(listed[2].size, 123);
    assert_eq!(listed[1].mime_type, Some("text/plain".to_string()));
    assert_eq!(listed[0].mime_type, None);
    assert_eq!(listed[0].modified, None);
}

#[test]
fn listing_under_subpath_builds_child_paths() {
    let storage = GitHubStorage::new(create_test_config());
    let output = "total 4\n-rw-r--r-- 1 u g 9 Nov 14 12:00 cat.png\n";
    let listed = storage.listing_from_output("/photos", output);
    assert_eq!(listed[0].path, "/photos/cat.png");
    let malformed_size =
        storage.listing_from_output("/", "total 4\n-rw-r--r-- 1 u g big Nov 14 12:00 odd.bin\n");
    assert_eq!(malformed_size[0].size, 0);
}

#[test]
fn listing_name_fields_join_with_single_blanks() {
    let storage = GitHubStorage::new(create_test_config());
    let output = "total 4\n-rw-r--r-- 1 u g 9 Nov 14 12:00 a  double.txt\n";
    let listed = storage.listing_from_output("/", output);
    assert_eq!(listed[0].name, "a double.txt");
}

#[test]
fn listing_tolerates_crlf_line_ends() {
    let storage = GitHubStorage::new(create_test_config());
    let output = "total 4\r\n-rw-r--r-- 1 u g 9 Nov 14 12:00 plain.txt\r\n";
    let listed = storage.listing_from_output("/", output);
    assert_eq!(listed[0].name, "plain.txt");
    assert_eq!(listed[0].size, 9);
}

#[test]
fn listing_command_requires_connection() {
    let mut storage = GitHubStorage::new(create_test_config());
    assert!(matches!(
        storage.listing_command("/"),
        Err(StorageError::NotConnected)
    ));
    storage.finish_auth(true).unwrap();
    let cmd = storage.listing_command("/photos dir").unwrap();
    assert_eq!(
        cmd,
        "ls -la --time-style=+%s '/tmp/testrepo/photos dir' 2>/dev/null || echo 'DIR_NOT_FOUND'"
    );
}

#[test]
fn lfs_tracked_file_resolves_through_smudge() {
    let mut storage = GitHubStorage::new(create_test_config());
    storage.finish_auth(true).unwrap();
    let check = storage.read_check_command("/data/model.bin").unwrap();
    assert_eq!(
        check,
        "cd /tmp/testrepo && git lfs ls-files | grep -q data/model.bin && echo 'lfs' || echo 'regular'"
    );
    let resolve = storage.read_resolve_command("/data/model.bin", "lfs\n");
    assert_eq!(resolve, "cd /tmp/testrepo && git lfs smudge < data/model.bin");
    let direct = storage.read_resolve_command("/data/model.bin", "regular\n");
    assert_eq!(direct, "cat /tmp/testrepo/data/model.bin");

    let pointer = b"version https://git-lfs.github.com/spec/v1\noid sha256:aa\nsize 1048576\n".to_vec();
    let smudged: Vec<u8> = vec![0u8, 159, 146, 150, 13, 10, 0, 255];
    assert_ne!(pointer, smudged);
    let delivered = storage.read_content(smudged.clone()).unwrap();
    assert_eq!(delivered, smudged);
}

#[test]
fn read_content_requires_connection() {
    let storage = GitHubStorage::new(create_test_config());
    assert!(matches!(
        storage.read_content(vec![1, 2, 3]),
        Err(StorageError::NotConnected)
    ));
}

#[test]
fn github_disconnect_resets_sync_state() {
    let mut storage = GitHubStorage::new(create_test_config());
    storage.finish_auth(true).unwrap();
    storage.finish_bootstrap(BootstrapStep::Done);
    storage.disconnect();
    assert!(!storage.is_connected());
    assert_eq!(storage.sync_state, RepoSyncState::NotChecked);
}

#[test]
fn github_thumbnail_guesses_format_from_magic_bytes() {
    let mut storage = GitHubStorage::new(create_test_config());
    storage.finish_auth(true).unwrap();
    let img = image::DynamicImage::ImageRgba8(image::RgbaImage::new(2, 4));
    let mut bytes = std::io::Cursor::new(Vec::new());
    img.write_to(&mut bytes, image::ImageFormat::Png).unwrap();
    let content = bytes.into_inner();
    let uri = storage.get_file_thumbnail(&content, 2).unwrap();
    assert!(uri.starts_with("data:image/png;base64,"));
}

#[test]
fn github_thumbnail_of_non_image_content_is_inline_not_error() {
    let mut storage = GitHubStorage::new(create_test_config());
    storage.finish_auth(true).unwrap();
    let text = vec![1u8, 2, 3];
    let uri = storage.get_file_thumbnail(&text, 2).unwrap();
    assert_eq!(
        uri,
        format!("data:application/octet-stream;base64,{}", base64_encode(&text))
    );
    let corrupt_png = vec![0x89, b'P', b'N', b'G', 0x0D, 0x0A, 0x1A, 0x0A, 1, 2, 3];
    let uri = storage.get_file_thumbnail(&corrupt_png, 2).unwrap();
    assert_eq!(
        uri,
        format!("data:image/png;base64,{}", base64_encode(&corrupt_png))
    );
}
