use bottlecap_runner::manager::{ManagerAction, SessionManager};

#[test]
fn first_connect_only_spawns() {
    let mut m = SessionManager::new();
    let acts = m.connect();
    assert_eq!(acts, vec![ManagerAction::Spawn(1)]);
    assert_eq!(m.active, Some(1));
}

#[test]
fn connect_cancels_prior_before_spawning() {
    let mut m = SessionManager::new();
    m.connect();
    let acts = m.connect();
    assert_eq!(acts, vec![ManagerAction::Cancel(1), ManagerAction::Spawn(2)]);
    assert_eq!(m.active, Some(2));
    let acts = m.connect();
    assert_eq!(acts, vec![ManagerAction::Cancel(2), ManagerAction::Spawn(3)]);
    assert_eq!(m.active, Some(3));
}

#[test]
fn disconnect_cancels_the_active_session() {
    let mut m = SessionManager::new();
    m.connect();
    let acts = m.disconnect();
    assert_eq!(acts, vec![ManagerAction::Cancel(1)]);
    assert_eq!(m.active, None);
}

#[test]
fn disconnect_with_no_session_is_a_noop() {
    let mut m = SessionManager::new();
    let acts = m.disconnect();
    assert!(acts.is_empty());
    assert_eq!(m.active, None);
    // and doing it twice changes nothing either
    let acts = m.disconnect();
    assert!(acts.is_empty());
    assert_eq!(m.active, None);
}
