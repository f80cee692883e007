use comm_node::errors::LockError;
use comm_node::lock::LockManager;
use comm_node::types::DomainId;

#[test]
fn acquire_is_exclusive_per_path() {
    let mut m = LockManager::new();
    assert!(m.acquire("src/api.rs".to_string(), DomainId::new("backend")).is_ok());

    let r = m.acquire("src/api.rs".to_string(), DomainId::new("frontend"));
    match r {
        Err(LockError::LockConflict { path, holder }) => {
            assert_eq!(path, "src/api.rs");
            assert_eq!(holder.as_str(), "backend");
        }
        _ => panic!("expected a lock conflict"),
    }

    // Re-acquisition by the current holder is an idempotent no-op.
    assert!(m.acquire("src/api.rs".to_string(), DomainId::new("backend")).is_ok());
    assert_eq!(m.list().len(), 1);
    assert_eq!(m.list()[0].holder.as_str(), "backend");
}

#[test]
fn release_is_idempotent_and_holder_checked() {
    let mut m = LockManager::new();

    // Releasing an unheld path succeeds.
    assert!(m.release("never-held.txt", &DomainId::new("backend")).is_ok());

    assert!(m.acquire("shared.txt".to_string(), DomainId::new("h1")).is_ok());

    // A different holder cannot release it, and the lock is unchanged.
    let r = m.release("shared.txt", &DomainId::new("h2"));
    match r {
        Err(LockError::LockConflict { path, holder }) => {
            assert_eq!(path, "shared.txt");
            assert_eq!(holder.as_str(), "h1");
        }
        _ => panic!("expected a lock conflict"),
    }
    assert_eq!(m.list().len(), 1);
    assert_eq!(m.list()[0].holder.as_str(), "h1");

    // The holder itself can release.
    assert!(m.release("shared.txt", &DomainId::new("h1")).is_ok());
    assert_eq!(m.list().len(), 0);
}

#[test]
fn snapshot_restore_round_trip_ignores_order() {
    let mut m = LockManager::new();
    assert!(m.acquire("a.rs".to_string(), DomainId::new("backend")).is_ok());
    assert!(m.acquire("b.rs".to_string(), DomainId::new("frontend")).is_ok());
    assert!(m.acquire("c.rs".to_string(), DomainId::new("docs")).is_ok());

    let mut records = m.snapshot();
    records.reverse();

    let restored = LockManager::restore(records);
    let mut got: Vec<(String, String)> = restored
        .list()
        .iter()
        .map(|l| (l.path.clone(), l.holder.as_str().to_string()))
        .collect();
    got.sort();
    assert_eq!(
        got,
        vec![
            ("a.rs".to_string(), "backend".to_string()),
            ("b.rs".to_string(), "frontend".to_string()),
            ("c.rs".to_string(), "docs".to_string()),
        ]
    );
}

#[test]
fn restore_takes_later_duplicates() {
    let mut m = LockManager::new();
    assert!(m.acquire("a.rs".to_string(), DomainId::new("one")).is_ok());
    let mut records = m.snapshot();
    let mut again = LockManager::new();
    assert!(again.acquire("a.rs".to_string(), DomainId::new("two")).is_ok());
    records.extend(again.snapshot());

    let restored = LockManager::restore(records);
    assert_eq!(restored.list().len(), 1);
    assert_eq!(restored.list()[0].holder.as_str(), "two");
}
