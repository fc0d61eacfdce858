use hap::error::Error;
use hap::pairing::PairingStore;

fn ids(store: &PairingStore) -> Vec<String> {
    store.list().iter().map(|p| p.id.clone()).collect()
}

#[test]
fn add_and_list_keep_the_order() {
    let mut store = PairingStore::new();
    assert_eq!(store.len(), 0);
    assert!(!store.has_admin());
    store.add("a".into(), [1; 32], true);
    store.add("b".into(), [2; 32], false);
    store.add("c".into(), [3; 32], false);
    assert_eq!(ids(&store), vec!["a", "b", "c"]);
    assert!(store.has_admin());
    assert!(store.contains("b"));
    assert!(!store.contains("d"));
    let b = store.get("b").unwrap();
    assert_eq!((b.id.as_str(), b.ltpk, b.admin), ("b", [2; 32], false));
    assert!(store.get("d").is_none());
}

#[test]
fn add_of_a_paired_controller_updates_it() {
    let mut store = PairingStore::new();
    store.add("a".into(), [1; 32], true);
    store.add("b".into(), [2; 32], false);
    store.add("a".into(), [9; 32], false);
    assert_eq!(ids(&store), vec!["a", "b"]);
    let a = store.get("a").unwrap();
    assert_eq!((a.ltpk, a.admin), ([9; 32], false));
    assert!(!store.has_admin());
}

#[test]
fn remove_takes_the_pairing_out() {
    let mut store = PairingStore::new();
    store.add("a".into(), [1; 32], true);
    store.add("b".into(), [2; 32], false);
    store.add("c".into(), [3; 32], true);
    assert_eq!(store.remove("b"), Ok(()));
    assert_eq!(ids(&store), vec!["a", "c"]);
    assert_eq!(store.remove("a"), Ok(()));
    assert_eq!(ids(&store), vec!["c"]);
    assert_eq!(store.remove("zzz"), Ok(()));
    assert_eq!(ids(&store), vec!["c"]);
}

#[test]
fn remove_of_the_last_admin_is_refused() {
    let mut store = PairingStore::new();
    store.add("admin".into(), [1; 32], true);
    assert_eq!(store.remove("admin"), Err(Error::PairingStatus(0x02)));
    assert_eq!(ids(&store), vec!["admin"]);
    store.add("user".into(), [2; 32], false);
    assert_eq!(store.remove("admin"), Err(Error::PairingStatus(0x02)));
    assert_eq!(ids(&store), vec!["admin", "user"]);
    assert!(store.has_admin());
    assert_eq!(store.remove("user"), Ok(()));
    store.add("second".into(), [3; 32], true);
    assert_eq!(store.remove("admin"), Ok(()));
    assert_eq!(ids(&store), vec!["second"]);
}
