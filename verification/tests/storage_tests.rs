use std::str::FromStr;
use remote_storage::storage::{detect_mime_type, StorageError, StorageType};

#[test]
fn test_storage_type_display() {
    assert_eq!(StorageType::Ec2.as_str(), "ec2");
    assert_eq!(StorageType::GitHub.as_str(), "github");
}

#[test]
fn test_storage_type_from_str() {
    assert_eq!(StorageType::from_str("ec2").unwrap(), StorageType::Ec2);
    assert_eq!(StorageType::from_str("EC2").unwrap(), StorageType::Ec2);
    assert_eq!(StorageType::from_str("github").unwrap(), StorageType::GitHub);
    assert_eq!(StorageType::from_str("GitHub").unwrap(), StorageType::GitHub);
    assert!(StorageType::from_str("invalid").is_err());
}

#[test]
fn test_detect_mime_type() {
    assert_eq!(detect_mime_type("image.jpg"), Some("image/jpeg".to_string()));
    assert_eq!(detect_mime_type("image.jpeg"), Some("image/jpeg".to_string()));
    assert_eq!(detect_mime_type("image.PNG"), Some("image/png".to_string()));
    assert_eq!(detect_mime_type("video.mp4"), Some("video/mp4".to_string()));
    assert_eq!(detect_mime_type("audio.mp3"), Some("audio/mpeg".to_string()));
    assert_eq!(detect_mime_type("doc.pdf"), Some("application/pdf".to_string()));
    assert_eq!(detect_mime_type("file.txt"), Some("text/plain".to_string()));
    assert_eq!(detect_mime_type("archive.zip"), Some("application/zip".to_string()));
    assert_eq!(detect_mime_type("unknown.xyz"), Some("file".to_string()));
    assert_eq!(detect_mime_type("noextension"), Some("file".to_string()));
}

#[test]
fn detect_mime_type_edge_names() {
    assert_eq!(detect_mime_type(".bashrc"), Some("file".to_string()));
    assert_eq!(detect_mime_type("trailing."), Some("file".to_string()));
    assert_eq!(detect_mime_type("dir/photo.WebP"), Some("image/webp".to_string()));
    assert_eq!(detect_mime_type("notes.LOG"), Some("text/plain".to_string()));
}

#[test]
fn ssh_detect_mime_type_categories() {
    assert_eq!(remote_storage::ssh::detect_mime_type("a.mov"), Some("video".to_string()));
    assert_eq!(remote_storage::ssh::detect_mime_type("a.docx"), Some("document".to_string()));
    assert_eq!(remote_storage::ssh::detect_mime_type("a.csv"), Some("text".to_string()));
    assert_eq!(remote_storage::ssh::detect_mime_type("a.jpeg"), Some("image/jpeg".to_string()));
    assert_eq!(remote_storage::ssh::detect_mime_type("noextension"), None);
}

#[test]
fn storage_error_messages() {
    assert_eq!(StorageError::NotConnected.message(), "Not connected");
    assert_eq!(
        StorageError::Auth("key rejected".to_string()).message(),
        "Authentication failed: key rejected"
    );
    assert_eq!(
        StorageError::Decode("bad image".to_string()).message(),
        "Decode error: bad image"
    );
    assert_eq!(
        StorageError::Network("timed out".to_string()).message(),
        "Network error: timed out"
    );
    assert_eq!(
        StorageError::RemoteCommand("clone failed".to_string()).message(),
        "Remote command failed: clone failed"
    );
    assert_eq!(
        StorageError::Protocol("open failed".to_string()).message(),
        "Protocol error: open failed"
    );
}
