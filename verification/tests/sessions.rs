use syntro_rdp::session::{Role, SessionError, SessionSlot};

#[test]
fn messages_of_errors() {
    assert_eq!(SessionError::AlreadyRunning(Role::Host).message(), "Hosting session already running");
    assert_eq!(SessionError::AlreadyRunning(Role::Viewer).message(), "Viewer session already running");
    assert_eq!(SessionError::NotRunning(Role::Host).message(), "No active host session");
    assert_eq!(SessionError::NotRunning(Role::Viewer).message(), "No active viewer session");
    assert_eq!(SessionError::StartFailed(Role::Host).message(), "Failed to start host endpoint");
    assert_eq!(SessionError::StartFailed(Role::Viewer).message(), "Failed to connect to host");
    assert_eq!(SessionError::Transport("connection lost".to_string()).message(), "connection lost");
}

#[test]
fn host_session_lifecycle() {
    let mut slot: SessionSlot<u8, String> = SessionSlot::new(Role::Host);
    assert!(!slot.is_active());
    let t = slot.begin(1).unwrap();
    assert!(slot.is_pending());
    assert_eq!(slot.active(), Err(SessionError::NotRunning(Role::Host)));
    assert_eq!(slot.install(t, "node-address".to_string()), Ok(None));
    assert!(slot.is_active());
    assert!(!slot.is_pending());
    assert_eq!(slot.begin(3), Err(SessionError::AlreadyRunning(Role::Host)));
    assert_eq!(slot.active(), Ok(&"node-address".to_string()));
    assert_eq!(slot.stop(), Ok((vec![1], Some("node-address".to_string()))));
    assert!(!slot.is_active());
    assert_eq!(slot.stop(), Err(SessionError::NotRunning(Role::Host)));
    assert!(slot.begin(4).is_ok());
}

#[test]
fn stopping_a_viewer_while_it_connects_cancels_it() {
    let mut slot: SessionSlot<&str, u32> = SessionSlot::new(Role::Viewer);
    let t = slot.begin("cancel").unwrap();
    assert_eq!(slot.stop(), Ok((vec!["cancel"], None)));
    assert!(!slot.is_pending());
    assert_eq!(slot.install(t, 7), Err(SessionError::StartFailed(Role::Viewer)));
    assert_eq!(slot.install(t, 7).unwrap_err().message(), "Failed to connect to host");
    assert!(!slot.is_active());
    assert_eq!(slot.active(), Err(SessionError::NotRunning(Role::Viewer)));
    assert!(slot.begin("again").is_ok());
}

#[test]
fn concurrent_connections_last_one_wins() {
    let mut slot: SessionSlot<&str, u32> = SessionSlot::new(Role::Viewer);
    let a = slot.begin("a").unwrap();
    let b = slot.begin("b").unwrap();
    assert_ne!(a, b);
    assert_eq!(slot.install(b, 2), Ok(None));
    assert_eq!(slot.install(a, 1), Ok(Some(("b", 2))));
    assert_eq!(slot.active(), Ok(&1));
    assert_eq!(slot.begin("c"), Err(SessionError::AlreadyRunning(Role::Viewer)));
    assert_eq!(slot.stop(), Ok((vec!["a"], Some(1))));
}

#[test]
fn stop_cancels_every_setup_under_way() {
    let mut slot: SessionSlot<u8, u32> = SessionSlot::new(Role::Viewer);
    let a = slot.begin(10).unwrap();
    let _b = slot.begin(20).unwrap();
    slot.forget(a);
    let _c = slot.begin(30).unwrap();
    assert_eq!(slot.stop(), Ok((vec![20, 30], None)));
    assert!(!slot.is_pending());
}

#[test]
fn viewer_without_session() {
    let mut slot: SessionSlot<u8, u32> = SessionSlot::new(Role::Viewer);
    assert_eq!(slot.active(), Err(SessionError::NotRunning(Role::Viewer)));
    assert_eq!(slot.stop().unwrap_err().message(), "No active viewer session");
    assert_eq!(slot.install(0, 5), Err(SessionError::StartFailed(Role::Viewer)));
    let t = slot.begin(0).unwrap();
    slot.forget(t);
    assert!(!slot.is_pending());
    assert_eq!(slot.install(t, 5), Err(SessionError::StartFailed(Role::Viewer)));
    let t = slot.begin(0).unwrap();
    assert_eq!(slot.install(t, 7), Ok(None));
    slot.clear();
    assert!(!slot.is_active());
    assert!(slot.begin(1).is_ok());
}
