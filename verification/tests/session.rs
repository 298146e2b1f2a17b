use swivel::config::MAX_PEERS;
use swivel::session::{new_id, Session};

fn id(n: u8) -> [u8; 32] {
    [n; 32]
}

#[test]
fn a_session_holds_members() {
    let mut session = Session::new(1);
    assert!(session.is_empty());

    assert!(session.add(id(1)));
    assert!(session.contains(id(1)));
    assert!(!session.is_empty());

    assert!(session.remove(id(1)));
    assert!(session.is_empty());
    assert!(!session.remove(id(1)));
}

#[test]
fn adding_the_same_member_twice_is_harmless() {
    let mut session = Session::new(1);
    assert!(session.add(id(1)));
    assert!(session.add(id(1)));
    assert_eq!(session.members().len(), 1);
}

#[test]
fn a_session_stops_at_the_mesh_limit() {
    let mut session = Session::new(1);

    // The local user is one of the MAX_PEERS, so MAX_PEERS - 1 others fit.
    for n in 1..MAX_PEERS as u8 {
        assert!(session.add(id(n)), "member {n} should fit");
    }
    assert_eq!(session.members().len(), MAX_PEERS - 1);

    assert!(!session.add(id(200)), "a mesh past the limit would saturate a home connection");

    // An existing member can still be re-added when it is full.
    assert!(session.add(id(1)));
}

#[test]
fn session_ids_differ() {
    let a = new_id();
    let b = new_id();
    assert_ne!(a, b, "a repeated id would let a stale message reopen a session");
}

#[test]
fn members_are_kept_in_key_order() {
    let mut session = Session::new(42);
    assert_eq!(session.id(), 42);
    session.add(id(3));
    session.add(id(1));
    session.add(id(2));
    session.remove(id(1));
    assert_eq!(session.members(), &[id(2), id(3)]);
    assert_eq!(session.len(), 2);
}

#[test]
fn adding_and_removing_someone_restores_the_session() {
    let mut session = Session::new(1);
    session.add(id(5));
    session.add(id(9));
    let before = session.members().to_vec();
    assert!(session.add(id(7)));
    assert_eq!(session.members(), &[id(5), id(7), id(9)]);
    assert!(session.remove(id(7)));
    assert_eq!(session.members(), before.as_slice());
}
