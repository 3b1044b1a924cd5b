use browser_core::session::{SessionError, TabTable};

#[test]
fn new_table_has_no_active_tab() {
    let table = TabTable::new(3);
    assert_eq!(table.tab_count(), 0);
    let err = table.active_tab().unwrap_err();
    assert!(matches!(err, SessionError::NoActiveTab));
    assert_eq!(err.message(), "No active tab");
    assert!(table.list_tabs().is_empty());
}

#[test]
fn admitted_tabs_get_fresh_uuids() {
    let table = TabTable::new(2);
    let a = table.admit_tab().unwrap();
    let b = table.admit_tab().unwrap();
    assert_eq!(a.len(), 36);
    assert_eq!(b.len(), 36);
    assert_ne!(a, b);
}

#[test]
fn recorded_tab_becomes_active_and_is_listed() {
    let mut table = TabTable::new(5);
    table.record_tab("t1".to_string(), "https://a.com".to_string());
    table.record_tab("t2".to_string(), "https://b.com".to_string());
    assert_eq!(table.tab_count(), 2);
    assert_eq!(table.active_tab().unwrap(), "t2");
    assert_eq!(
        table.list_tabs(),
        vec![
            ("t1".to_string(), "https://a.com".to_string()),
            ("t2".to_string(), "https://b.com".to_string()),
        ]
    );
}

#[test]
fn recording_a_known_tab_replaces_its_url() {
    let mut table = TabTable::new(5);
    table.record_tab("t1".to_string(), "https://a.com".to_string());
    table.record_tab("t2".to_string(), "https://b.com".to_string());
    table.record_tab("t1".to_string(), "https://c.com".to_string());
    assert_eq!(table.tab_count(), 2);
    assert_eq!(table.active_tab().unwrap(), "t1");
    assert_eq!(table.list_tabs()[0], ("t1".to_string(), "https://c.com".to_string()));
}

#[test]
fn full_session_refuses_with_count_and_limit() {
    let mut table = TabTable::new(2);
    table.record_tab("t1".to_string(), "https://a.com".to_string());
    assert!(table.admit_tab().is_ok());
    table.record_tab("t2".to_string(), "https://b.com".to_string());
    let err = table.admit_tab().unwrap_err();
    assert!(matches!(err, SessionError::TabLimitReached { open: 2, max: 2 }));
    assert_eq!(err.message(), "Tab limit reached: 2/2");
    assert!(table.check_capacity().is_err());
}

#[test]
fn zero_limit_refuses_the_first_tab() {
    let table = TabTable::new(0);
    assert_eq!(table.admit_tab().unwrap_err().message(), "Tab limit reached: 0/0");
}

#[test]
fn close_removes_the_tab_and_keeps_the_others() {
    let mut table = TabTable::new(5);
    table.record_tab("t1".to_string(), "https://a.com".to_string());
    table.record_tab("t2".to_string(), "https://b.com".to_string());
    table.record_tab("t3".to_string(), "https://c.com".to_string());
    let closed = table.close_tab("t2").unwrap();
    assert_eq!(closed.id, "t2");
    assert_eq!(closed.current_url, "https://b.com");
    assert_eq!(
        table.list_tabs(),
        vec![
            ("t1".to_string(), "https://a.com".to_string()),
            ("t3".to_string(), "https://c.com".to_string()),
        ]
    );
}

#[test]
fn closing_an_unknown_tab_is_refused() {
    let mut table = TabTable::new(5);
    table.record_tab("t1".to_string(), "https://a.com".to_string());
    let err = table.close_tab("nope").unwrap_err();
    assert!(matches!(err, SessionError::TabNotFound { ref tab_id } if tab_id == "nope"));
    assert_eq!(table.tab_count(), 1);
}

#[test]
fn closing_the_active_tab_leaves_no_tab_to_find() {
    let mut table = TabTable::new(5);
    table.record_tab("t1".to_string(), "https://a.com".to_string());
    table.close_tab("t1").unwrap();
    let err = table.active_tab().unwrap_err();
    assert!(matches!(err, SessionError::TabNotFound { ref tab_id } if tab_id == "t1"));
}

#[test]
fn close_after_open_restores_the_listing() {
    let mut table = TabTable::new(5);
    table.record_tab("t1".to_string(), "https://a.com".to_string());
    let before = table.list_tabs();
    table.record_tab("t9".to_string(), "https://z.com".to_string());
    table.close_tab("t9").unwrap();
    assert_eq!(table.list_tabs(), before);
}
