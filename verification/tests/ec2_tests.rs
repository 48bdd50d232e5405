use remote_storage::ec2::{Ec2Config, Ec2Storage, SftpEntry};
use remote_storage::storage::{Storage, StorageType, StorageError};
use remote_storage::thumbnail::thumbnail_dimensions;
use remote_storage::utils::base64_encode;

fn create_test_config() -> Ec2Config {
    Ec2Config {
        host: "localhost".to_string(),
        username: "testuser".to_string(),
        pem_content: base64_encode(b"test key"),
        port: 22,
    }
}

#[test]
fn test_ec2_storage_creation() {
    let config = create_test_config();
    let storage = Ec2Storage::new(config);
    assert!(!storage.is_connected());
    assert_eq!(storage.storage_type(), StorageType::Ec2);
}

#[test]
fn test_get_root_path_regular_user() {
    let config = Ec2Config {
        host: "localhost".to_string(),
        username: "ubuntu".to_string(),
        pem_content: "dGVzdA==".to_string(),
        port: 22,
    };
    let storage = Ec2Storage::new(config);
    assert_eq!(storage.get_root_path(), "/home/ubuntu");
}

#[test]
fn test_get_root_path_root_user() {
    let config = Ec2Config {
        host: "localhost".to_string(),
        username: "root".to_string(),
        pem_content: "dGVzdA==".to_string(),
        port: 22,
    };
    let storage = Ec2Storage::new(config);
    assert_eq!(storage.get_root_path(), "/root");
}

#[test]
fn ec2_test_disconnect_when_not_connected() {
    let config = create_test_config();
    let mut storage = Ec2Storage::new(config);
    storage.disconnect();
    assert!(!storage.is_connected());
}

#[test]
fn connect_lifecycle_follows_verified_auth() {
    let mut storage = Ec2Storage::new(create_test_config());
    assert!(!storage.is_connected());
    assert!(matches!(
        storage.finish_connect(false),
        Err(StorageError::Auth(_))
    ));
    assert!(!storage.is_connected());
    assert!(storage.finish_connect(true).is_ok());
    assert!(storage.is_connected());
    storage.disconnect();
    assert!(!storage.is_connected());
}

#[test]
fn endpoint_formats_host_and_port() {
    let mut config = create_test_config();
    config.port = 2222;
    let storage = Ec2Storage::new(config);
    assert_eq!(storage.endpoint(), "localhost:2222");
}

fn entry(name: &str, size: Option<u64>, is_dir: bool) -> SftpEntry {
    SftpEntry {
        name: name.to_string(),
        path: format!("/home/testuser/{}", name),
        size,
        is_dir,
        mtime: Some(1_700_000_000),
    }
}

#[test]
fn listing_sorts_directories_first_then_names() {
    let mut storage = Ec2Storage::new(create_test_config());
    storage.finish_connect(true).unwrap();
    let entries = vec![
        entry("zeta.txt", Some(10), false),
        entry("beta", None, true),
        entry("alpha.txt", Some(3), false),
        entry("delta", Some(4096), true),
    ];
    let listed = storage.list_from_entries(&entries).unwrap();
    let names: Vec<&str> = listed.iter().map(|f| f.name.as_str()).collect();
    assert_eq!(names, vec!["beta", "delta", "alpha.txt", "zeta.txt"]);
    assert!(listed[0].is_dir && listed[1].is_dir);
    assert_eq!(listed[0].size, 0);
    assert_eq!(listed[1].size, 4096);
    assert_eq!(listed[0].mime_type, None);
    assert_eq!(listed[2].mime_type, Some("text/plain".to_string()));
    assert_eq!(listed[2].modified, Some(1_700_000_000));
}

#[test]
fn listing_requires_connection() {
    let storage = Ec2Storage::new(create_test_config());
    let entries = vec![entry("a.txt", Some(1), false)];
    assert!(matches!(
        storage.list_from_entries(&entries),
        Err(StorageError::NotConnected)
    ));
}

#[test]
fn non_image_thumbnail_is_plain_inline_payload() {
    let mut storage = Ec2Storage::new(create_test_config());
    storage.finish_connect(true).unwrap();
    let content = b"hello world".to_vec();
    let uri = storage
        .get_file_thumbnail("/home/testuser/notes.txt", &content, 128)
        .unwrap();
    assert_eq!(uri, format!("data:text/plain;base64,{}", base64_encode(b"hello world")));
}

#[test]
fn image_thumbnail_scales_to_max_dimension() {
    let mut storage = Ec2Storage::new(create_test_config());
    storage.finish_connect(true).unwrap();

    let img = image::DynamicImage::ImageRgba8(image::RgbaImage::new(4, 2));
    let mut bytes = std::io::Cursor::new(Vec::new());
    img.write_to(&mut bytes, image::ImageFormat::Png).unwrap();
    let content = bytes.into_inner();

    let uri = storage
        .get_file_thumbnail("/home/testuser/pic.png", &content, 2)
        .unwrap();
    assert!(uri.starts_with("data:image/png;base64,"));
    let payload = uri.strip_prefix("data:image/png;base64,").unwrap();
    let decoded = remote_storage::utils::base64_decode(payload).unwrap();
    let thumb = image::load_from_memory(&decoded).unwrap();
    assert_eq!(image::GenericImageView::dimensions(&thumb), (2, 1));
}

#[test]
fn image_thumbnail_mime_names_the_reencoded_format() {
    let mut storage = Ec2Storage::new(create_test_config());
    storage.finish_connect(true).unwrap();

    let img = image::DynamicImage::ImageRgba8(image::RgbaImage::new(4, 2));
    let mut bytes = std::io::Cursor::new(Vec::new());
    img.write_to(&mut bytes, image::ImageFormat::Png).unwrap();
    let content = bytes.into_inner();

    // A BMP extension re-encodes as JPEG, and the label says so, whatever
    // the extension-derived kind would have said.
    let uri = storage
        .get_file_thumbnail("/home/testuser/pic.bmp", &content, 2)
        .unwrap();
    assert!(uri.starts_with("data:image/jpeg;base64,"));

    // The extension-to-format choice folds ASCII case.
    let uri = storage
        .get_file_thumbnail("/home/testuser/pic.PNG", &content, 2)
        .unwrap();
    assert!(uri.starts_with("data:image/png;base64,"));

    let undecodable = storage.get_file_thumbnail("/home/testuser/pic.png", &vec![1, 2, 3], 2);
    assert!(matches!(undecodable, Err(StorageError::Decode(_))));
}

#[test]
fn thumbnail_dimensions_follow_exact_rounding() {
    assert_eq!(thumbnail_dimensions(800, 600, 200), (200, 150));
    assert_eq!(thumbnail_dimensions(600, 800, 200), (150, 200));
    assert_eq!(thumbnail_dimensions(1000, 333, 100), (100, 33));
    assert_eq!(thumbnail_dimensions(1000, 5, 100), (100, 1));
    assert_eq!(thumbnail_dimensions(10000, 1, 100), (100, 1));
    assert_eq!(thumbnail_dimensions(640, 480, 0), (1, 1));
}
