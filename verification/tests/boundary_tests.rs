use remote_storage::commands::{
    ConnectResponse, Ec2ConnectRequest, GitHubConnectRequest, StorageBackend, slot_disconnect,
    slot_is_connected, slot_storage_type,
};
use remote_storage::ec2::{Ec2Config, Ec2Storage, SftpEntry};
use remote_storage::ssh::{ConnectionConfig, SshConnection};
use remote_storage::storage::{Storage, StorageType};
use remote_storage::utils::{base64_decode, base64_encode, base64_round_trip, decode_key_material};

#[test]
fn test_base64_roundtrip() {
    let input = b"Hello, World!";
    let encoded = base64_encode(input);
    let decoded = base64_decode(&encoded).unwrap();
    assert_eq!(input.to_vec(), decoded);
}

#[test]
fn test_base64_encode() {
    assert_eq!(base64_encode(b"Hello"), "SGVsbG8=");
}

#[test]
fn base64_round_trip_keeps_binary_bytes() {
    let input: Vec<u8> = vec![0, 255, 10, 13, 26, 127, 128, 7];
    assert_eq!(base64_round_trip(&input), input);
    assert!(base64_decode("not base64!").is_err());
}

#[test]
fn key_material_decodes_to_pem_text() {
    let pem = "-----BEGIN KEY-----\nabc\n-----END KEY-----";
    let carried = base64_encode(pem.as_bytes());
    assert_eq!(decode_key_material(&carried).unwrap(), pem);
    assert!(decode_key_material("!!!").is_err());
    let not_utf8 = base64_encode(&[0xff, 0xfe, 0x80]);
    assert!(decode_key_material(&not_utf8).is_err());
}

#[test]
fn ec2_request_defaults_port() {
    let req = Ec2ConnectRequest {
        host: "h".to_string(),
        username: "u".to_string(),
        pem_content: "k".to_string(),
        port: None,
    };
    let config = req.into_config();
    assert_eq!(config.port, 22);
    let req = Ec2ConnectRequest {
        host: "h".to_string(),
        username: "u".to_string(),
        pem_content: "k".to_string(),
        port: Some(2022),
    };
    assert_eq!(req.into_config().port, 2022);
}

#[test]
fn github_request_defaults_branch_and_path() {
    let req = GitHubConnectRequest {
        repo_url: "git@github.com:a/b.git".to_string(),
        username: "git".to_string(),
        ssh_key_content: "k".to_string(),
        branch: None,
        local_path: None,
    };
    let config = req.into_config();
    assert_eq!(config.branch, "main");
    assert_eq!(config.local_path, "/tmp/image-repo");
}

#[test]
fn connect_responses_carry_kind_and_root() {
    let ok = ConnectResponse::connected(StorageType::Ec2, "/root".to_string());
    assert!(ok.success);
    assert_eq!(ok.message, "Connected to EC2 successfully");
    assert_eq!(ok.storage_type, Some("ec2".to_string()));
    assert_eq!(ok.root_path, Some("/root".to_string()));
    let failed = ConnectResponse::failed("EC2 connection failed: timed out".to_string());
    assert!(!failed.success);
    assert_eq!(failed.storage_type, None);
    assert_eq!(failed.root_path, None);
}

fn connected_backend() -> StorageBackend {
    let mut storage = Ec2Storage::new(Ec2Config {
        host: "localhost".to_string(),
        username: "ubuntu".to_string(),
        pem_content: "dGVzdA==".to_string(),
        port: 22,
    });
    storage.finish_connect(true).unwrap();
    StorageBackend::Ec2(storage)
}

#[test]
fn slot_reports_and_clears_connection() {
    let mut slot: Option<StorageBackend> = None;
    assert!(!slot_is_connected(&slot));
    assert_eq!(slot_storage_type(&slot), None);
    slot = Some(connected_backend());
    assert!(slot_is_connected(&slot));
    assert_eq!(slot_storage_type(&slot), Some("ec2".to_string()));
    slot_disconnect(&mut slot);
    assert!(slot.is_none());
    assert!(!slot_is_connected(&slot));
}

#[test]
fn ssh_connection_exists_only_when_authenticated() {
    let config = ConnectionConfig {
        host: "localhost".to_string(),
        username: "ubuntu".to_string(),
        pem_content: "dGVzdA==".to_string(),
        port: 22,
    };
    assert!(SshConnection::finish_connect(config.clone(), false).is_err());
    let conn = SshConnection::finish_connect(config, true).unwrap();
    let entries = vec![
        SftpEntry {
            name: "movie.mkv".to_string(),
            path: "/home/ubuntu/movie.mkv".to_string(),
            size: Some(1234),
            is_dir: false,
            mtime: Some(42),
        },
        SftpEntry {
            name: "docs".to_string(),
            path: "/home/ubuntu/docs".to_string(),
            size: None,
            is_dir: true,
            mtime: None,
        },
    ];
    let listed = conn.list_from_entries(&entries);
    assert_eq!(listed[0].name, "docs");
    assert!(listed[0].is_dir);
    assert_eq!(listed[1].mime_type, Some("video".to_string()));
    let uri = conn.get_file_thumbnail(&b"Hello".to_vec());
    assert_eq!(uri, "data:image/jpeg;base64,SGVsbG8=");
}

#[test]
fn backend_dispatch_reaches_both_transports() {
    let mut ec2 = connected_backend();
    assert_eq!(ec2.storage_type(), StorageType::Ec2);
    assert_eq!(ec2.get_root_path(), "/home/ubuntu");
    ec2.disconnect();
    assert!(!ec2.is_connected());
    assert_eq!(ec2.get_root_path(), "/home/ubuntu");

    let github = remote_storage::github::GitHubStorage::new(
        remote_storage::github::GitHubConfig {
            repo_url: "git@github.com:a/b.git".to_string(),
            username: "git".to_string(),
            ssh_key_content: "dGVzdA==".to_string(),
            branch: "main".to_string(),
            local_path: "/tmp/b".to_string(),
        },
    );
    let backend = remote_storage::commands::StorageBackend::GitHub(github);
    assert_eq!(backend.storage_type(), StorageType::GitHub);
    assert_eq!(backend.get_root_path(), "/");
    let slot = Some(backend);
    assert_eq!(slot_storage_type(&slot), Some("github".to_string()));
}

#[test]
fn data_uri_has_exact_shape() {
    let uri = remote_storage::thumbnail::data_uri("text/plain", b"hi");
    assert_eq!(uri, "data:text/plain;base64,aGk=");
}

#[test]
fn storage_type_parse_rejects_with_message() {
    let err = remote_storage::storage::StorageType::parse("tape").unwrap_err();
    assert_eq!(err, "Unknown storage type: tape");
}
