use shortlink::ident::{new_identifier, ID_LEN};
use shortlink::models::{NewUrl, DEFAULT_CREATOR};
use shortlink::service::{
    after_failed_insert, append_to_db, cleanup_old_links, create_error, create_url, get_url,
    resolve_outcome, sweep_cutoff, validate_target, CreateErrorKind, Decision, FetchErrorKind,
    MAX_ATTEMPTS, RETENTION_SECS, SECONDS_PER_DAY,
};
use shortlink::table::{MappingTable, StoreError};

fn url_safe(c: char) -> bool {
    c.is_ascii_alphanumeric() || c == '_' || c == '-'
}

#[test]
fn identifier_has_fixed_length_and_safe_alphabet() {
    for _ in 0..200 {
        let id = new_identifier();
        assert_eq!(id.chars().count(), ID_LEN);
        assert_eq!(id.len(), 6);
        assert!(id.chars().all(url_safe), "bad identifier {id}");
    }
}

#[test]
fn create_then_resolve_example_com() {
    let mut db = MappingTable::new();
    let id = create_url(&mut db, "https://example.com", 1_000).ok().unwrap();
    assert_eq!(id.len(), 6);
    assert!(id.chars().all(url_safe));
    assert_eq!(get_url(&db, &id).ok().unwrap(), "https://example.com");
    assert_eq!(db.len(), 1);
}

#[test]
fn create_then_resolve_many() {
    let mut db = MappingTable::new();
    let targets = ["https://a.example/x", "http://b.example/?q=1", "ftp://c", "x"];
    let mut ids = Vec::new();
    for (i, t) in targets.iter().enumerate() {
        let id = create_url(&mut db, t, i as i64).ok().unwrap();
        ids.push(id);
    }
    for (id, t) in ids.iter().zip(targets.iter()) {
        assert_eq!(get_url(&db, id).ok().unwrap(), *t);
    }
    for i in 0..ids.len() {
        for j in i + 1..ids.len() {
            assert_ne!(ids[i], ids[j]);
        }
    }
}

#[test]
fn create_empty_fails_validation_and_writes_nothing() {
    let mut db = MappingTable::new();
    let e = create_url(&mut db, "", 5).err().unwrap();
    assert_eq!(e.kind, CreateErrorKind::Validation);
    assert_eq!(db.len(), 0);
    assert!(validate_target("").is_err());
    assert!(validate_target("h").is_ok());
}

#[test]
fn resolve_unknown_is_not_found() {
    let db = MappingTable::new();
    let e = get_url(&db, &"doesnotexist".to_string()).err().unwrap();
    assert_eq!(e.kind, FetchErrorKind::NotFound);
    assert_eq!(e.message, "Failed to get url");
}

#[test]
fn same_candidate_twice_collides_and_is_retried() {
    let mut db = MappingTable::new();
    let first = append_to_db(&mut db, "https://one.example", "abc123".to_string(), 10);
    assert_eq!(first.ok().unwrap(), "abc123");
    let second = append_to_db(&mut db, "https://two.example", "abc123".to_string(), 11);
    assert_eq!(second.err().unwrap(), StoreError::DuplicateIdentifier);
    assert_eq!(db.len(), 1);
    assert_eq!(get_url(&db, &"abc123".to_string()).ok().unwrap(), "https://one.example");
    assert_eq!(after_failed_insert(1, StoreError::DuplicateIdentifier), Decision::Retry);
}

#[test]
fn retry_is_bounded() {
    assert_eq!(MAX_ATTEMPTS, 5);
    for a in 1..MAX_ATTEMPTS {
        assert_eq!(after_failed_insert(a, StoreError::DuplicateIdentifier), Decision::Retry);
    }
    assert_eq!(
        after_failed_insert(MAX_ATTEMPTS, StoreError::DuplicateIdentifier),
        Decision::Fail(CreateErrorKind::Exhausted)
    );
    assert_eq!(
        after_failed_insert(1, StoreError::StorageFailure),
        Decision::Fail(CreateErrorKind::Storage)
    );
}

#[test]
fn insert_stamps_rows_monotonically() {
    let mut db = MappingTable::new();
    assert!(db.insert(&NewUrl::new("https://a", "aaaaaa"), 100).is_ok());
    assert!(db.insert(&NewUrl::new("https://b", "bbbbbb"), 50).is_ok());
    let a = db.lookup(&"aaaaaa".to_string()).ok().unwrap();
    let b = db.lookup(&"bbbbbb".to_string()).ok().unwrap();
    assert_eq!(a.created_at, Some(100));
    assert_eq!(b.created_at, Some(100));
    assert_eq!(a.created_by, DEFAULT_CREATOR);
    assert_eq!(b.name, "https://b");
    assert_eq!(a.id, 1);
    assert_eq!(b.id, 2);
    assert_eq!(db.lookup(&"cccccc".to_string()).err().unwrap(), StoreError::NotFound);
}

#[test]
fn delete_older_than_keeps_recent_rows() {
    let mut db = MappingTable::new();
    assert!(db.insert(&NewUrl::new("https://a", "aaaaaa"), 10).is_ok());
    assert!(db.insert(&NewUrl::new("https://b", "bbbbbb"), 20).is_ok());
    assert!(db.insert(&NewUrl::new("https://c", "cccccc"), 30).is_ok());
    assert_eq!(db.delete_older_than(20), 1);
    assert_eq!(db.len(), 2);
    assert_eq!(db.lookup(&"aaaaaa".to_string()).err().unwrap(), StoreError::NotFound);
    assert_eq!(db.lookup(&"bbbbbb".to_string()).ok().unwrap().name, "https://b");
    assert_eq!(db.lookup(&"cccccc".to_string()).ok().unwrap().name, "https://c");
    assert_eq!(db.delete_older_than(20), 0);
    assert_eq!(db.delete_older_than(31), 2);
    assert_eq!(db.len(), 0);
}

#[test]
fn sweep_removes_expired_links() {
    let mut db = MappingTable::new();
    let day = SECONDS_PER_DAY;
    let old_id = create_url(&mut db, "https://old.example", 0).ok().unwrap();
    let new_id = create_url(&mut db, "https://new.example", 31 * day).ok().unwrap();
    let removed = cleanup_old_links(&mut db, 40 * day, RETENTION_SECS).ok().unwrap();
    assert_eq!(removed, 1);
    let e = get_url(&db, &old_id).err().unwrap();
    assert_eq!(e.kind, FetchErrorKind::NotFound);
    assert_eq!(get_url(&db, &new_id).ok().unwrap(), "https://new.example");
}

#[test]
fn sweep_cutoff_values() {
    assert_eq!(RETENTION_SECS, 2_592_000);
    assert_eq!(sweep_cutoff(3_000_000, RETENTION_SECS), Some(408_000));
    assert_eq!(sweep_cutoff(i64::MIN, 1), None);
    let mut db = MappingTable::new();
    let e = cleanup_old_links(&mut db, i64::MIN, 1).err().unwrap();
    assert_eq!(e.kind, FetchErrorKind::Storage);
    assert_eq!(e.message, "Failed to delete url");
}

#[test]
fn resolve_outcome_maps_errors() {
    assert_eq!(resolve_outcome(Ok("t".to_string())).ok().unwrap(), "t");
    assert_eq!(
        resolve_outcome(Err(StoreError::NotFound)).err().unwrap().kind,
        FetchErrorKind::NotFound
    );
    assert_eq!(
        resolve_outcome(Err(StoreError::StorageFailure)).err().unwrap().kind,
        FetchErrorKind::Storage
    );
}

#[test]
fn create_error_messages() {
    assert_eq!(create_error(CreateErrorKind::Validation).message, "URL must not be empty");
    assert_eq!(create_error(CreateErrorKind::Exhausted).message, "Failed to create short url");
    assert_eq!(create_error(CreateErrorKind::Storage).message, "Failed to create short url");
}
