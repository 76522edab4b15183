use broadway::backstage::{CreatedLease, EmptyLease, Lease, LeaseRegistry, LocalLease, RemoteLease};
use broadway::data::{ActorBlob, KeyBlob};
use broadway::transport::Location;

fn key(k: u8) -> KeyBlob {
    KeyBlob::new(b"Counter".to_vec(), vec![k])
}

fn node(name: &str) -> Location {
    Location::URI(name.to_string())
}

#[test]
fn unseen_key_is_empty() {
    let reg = LeaseRegistry::new();
    assert!(matches!(reg.get_actor(key(1), &node("a")), Lease::Empty(e) if e.key.same_key(&key(1))));
}

#[test]
fn concurrent_claims_yield_one_local() {
    let mut reg = LeaseRegistry::new();
    let names = ["n0", "n1", "n2", "n3", "n4"];
    let mut locals = 0;
    for (i, n) in names.iter().enumerate() {
        match reg.set_actor(EmptyLease { key: key(1) }, node(n)) {
            CreatedLease::Local(l) => {
                assert_eq!(i, 0);
                assert!(l.key.same_key(&key(1)));
                locals += 1;
            }
            CreatedLease::Remote(r) => {
                assert_eq!(r.location, node("n0"));
                assert!(r.key.same_key(&key(1)));
            }
        }
    }
    assert_eq!(locals, 1);
}

#[test]
fn claims_of_distinct_keys_do_not_interfere() {
    let mut reg = LeaseRegistry::new();
    assert!(matches!(reg.set_actor(EmptyLease { key: key(1) }, node("a")), CreatedLease::Local(_)));
    assert!(matches!(reg.set_actor(EmptyLease { key: key(2) }, node("b")), CreatedLease::Local(_)));
    assert!(matches!(reg.get_actor(key(1), &node("b")), Lease::Created(CreatedLease::Remote(r)) if r.location == node("a")));
    assert!(matches!(reg.get_actor(key(2), &node("b")), Lease::Created(CreatedLease::Local(_))));
}

#[test]
fn same_node_claiming_again_stays_local() {
    let mut reg = LeaseRegistry::new();
    assert!(matches!(reg.set_actor(EmptyLease { key: key(1) }, node("a")), CreatedLease::Local(_)));
    assert!(matches!(reg.set_actor(EmptyLease { key: key(1) }, node("a")), CreatedLease::Local(_)));
    assert!(matches!(reg.get_actor(key(1), &node("a")), Lease::Created(CreatedLease::Local(_))));
}

#[test]
fn stored_actor_is_reported_and_reclaimed() {
    let mut reg = LeaseRegistry::new();
    reg.set_actor(EmptyLease { key: key(1) }, node("a"));
    let state = ActorBlob::new(b"Counter".to_vec(), vec![42]);
    let stored = reg.store_local_actor(&state, LocalLease { key: key(1) });
    assert_eq!(stored.actor_data.data(), &vec![42]);
    match reg.get_actor(key(1), &node("b")) {
        Lease::Stored(s) => assert_eq!(s.actor_data.data(), &vec![42]),
        _ => panic!("expected a stored lease"),
    }
    assert!(matches!(reg.set_actor(EmptyLease { key: key(1) }, node("b")), CreatedLease::Local(_)));
    assert!(matches!(reg.get_actor(key(1), &node("a")), Lease::Created(CreatedLease::Remote(r)) if r.location == node("b")));
}

#[test]
fn remote_store_keeps_last_update() {
    let mut reg = LeaseRegistry::new();
    reg.set_actor(EmptyLease { key: key(1) }, node("a"));
    let none = reg.store_remote_actor(RemoteLease { key: key(1), location: node("a") });
    assert!(none.is_none());
    assert!(matches!(reg.get_actor(key(1), &node("a")), Lease::Created(CreatedLease::Local(_))));
    let state = ActorBlob::new(b"Counter".to_vec(), vec![3]);
    let lease = reg.update_actor(&state, LocalLease { key: key(1) });
    assert!(lease.key.same_key(&key(1)));
    let stored = reg.store_remote_actor(RemoteLease { key: key(1), location: node("a") }).unwrap();
    assert_eq!(stored.actor_data.data(), &vec![3]);
    assert!(matches!(reg.get_actor(key(1), &node("a")), Lease::Stored(_)));
}

#[test]
fn update_of_unowned_key_changes_nothing() {
    let mut reg = LeaseRegistry::new();
    let state = ActorBlob::new(b"Counter".to_vec(), vec![3]);
    reg.update_actor(&state, LocalLease { key: key(1) });
    assert!(matches!(reg.get_actor(key(1), &node("a")), Lease::Empty(_)));
}

#[test]
fn deleted_actor_is_empty_again() {
    let mut reg = LeaseRegistry::new();
    reg.set_actor(EmptyLease { key: key(1) }, node("a"));
    let e = reg.delete_local_actor(LocalLease { key: key(1) });
    assert!(e.key.same_key(&key(1)));
    assert!(matches!(reg.get_actor(key(1), &node("a")), Lease::Empty(_)));
    reg.set_actor(EmptyLease { key: key(1) }, node("b"));
    let e = reg.delete_remote_actor(RemoteLease { key: key(1), location: node("b") });
    assert!(e.key.same_key(&key(1)));
    assert!(matches!(reg.get_actor(key(1), &node("b")), Lease::Empty(_)));
}
