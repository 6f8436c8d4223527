use authgate::config::parse_port;
use authgate::files::{stored_file_path, upload_path};
use authgate::models::{role_bytes, Role};
use authgate::store::{StoreError, UserStore};

#[test]
fn parse_port_accepts_plain_numbers() {
    assert_eq!(parse_port(&b"8080".to_vec()), Some(8080));
    assert_eq!(parse_port(&b"0".to_vec()), Some(0));
    assert_eq!(parse_port(&b"65535".to_vec()), Some(65535));
    assert_eq!(parse_port(&b"007".to_vec()), Some(7));
    assert_eq!(parse_port(&b"+1".to_vec()), Some(1));
}

#[test]
fn parse_port_rejects_bad_input() {
    assert_eq!(parse_port(&b"".to_vec()), None);
    assert_eq!(parse_port(&b"+".to_vec()), None);
    assert_eq!(parse_port(&b"65536".to_vec()), None);
    assert_eq!(parse_port(&b"99999999999999999999".to_vec()), None);
    assert_eq!(parse_port(&b"12a".to_vec()), None);
    assert_eq!(parse_port(&b"-1".to_vec()), None);
    assert_eq!(parse_port(&b" 80".to_vec()), None);
}

#[test]
fn stored_paths_stay_inside_the_upload_directory() {
    let path = stored_file_path(&String::from("../../etc/passwd"));
    assert!(path.starts_with("./uploads/"));
    assert!(!path[10..].contains('/'));
    assert!(!path[10..].contains('\\'));

    let plain = stored_file_path(&String::from("report.pdf"));
    assert_eq!(plain, "./uploads/report.pdf");
}

#[test]
fn upload_path_without_a_name_gets_a_fresh_one() {
    let path = upload_path(None);
    assert!(path.starts_with("./uploads/"));
    assert_eq!(path.len(), 10 + 36);
    assert!(!path[10..].contains('/'));
}

#[test]
fn role_bytes_are_canonical() {
    assert_eq!(role_bytes(Role::Client), b"client".to_vec());
    assert_eq!(role_bytes(Role::Provider), b"provider".to_vec());
}

#[test]
fn store_assigns_increasing_ids_and_keeps_emails_unique() {
    let mut store = UserStore::new();
    let a = store
        .insert(&b"A".to_vec(), &b"a@x".to_vec(), String::from("h1"), Role::Client)
        .expect("first insert must succeed");
    let b = store
        .insert(&b"B".to_vec(), &b"b@x".to_vec(), String::from("h2"), Role::Provider)
        .expect("second insert must succeed");
    assert_eq!(a.id, 1);
    assert_eq!(b.id, 2);
    assert_eq!(store.len(), 2);
    let dup = store.insert(&b"C".to_vec(), &b"a@x".to_vec(), String::from("h3"), Role::Client);
    assert_eq!(dup, Err(StoreError::DuplicateEmail));
    assert_eq!(store.len(), 2);
    let found = store.find_by_identifier(&b"b@x".to_vec()).expect("b@x exists");
    assert_eq!(found.id, 2);
    assert_eq!(found.name, b"B".to_vec());
    assert!(store.find_by_identifier(&b"c@x".to_vec()).is_none());
}
