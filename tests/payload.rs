use ha_core::payload::{DownNodeCheck, DownNodeCheckStatus, HostInfoValue, HostInfoValueGetAllState};

#[test]
fn down_node_check_new() {
    let d = DownNodeCheck::new("10.0.0.5".to_string(), 3306);
    assert_eq!(d.host, "10.0.0.5");
    assert_eq!(d.dbport, 3306);
}

#[test]
fn down_node_check_status_new() {
    let s = DownNodeCheckStatus::new();
    assert_eq!(s.host, "");
    assert!(!s.client_status);
    assert!(!s.db_status);
}

#[test]
fn get_all_state_copies_record() {
    let h = HostInfoValue {
        host: "127.0.0.1:3306".to_string(),
        dbport: 3306,
        rtype: "db".to_string(),
        cluster_name: "cluster1".to_string(),
        online: true,
        insert_time: 1_574_000_000,
        update_time: 1_574_000_100,
        maintain: false,
    };
    let s = HostInfoValueGetAllState::new(&h, "master".to_string());
    assert_eq!(s.host, "127.0.0.1:3306");
    assert_eq!(s.dbport, 3306);
    assert_eq!(s.rtype, "db");
    assert_eq!(s.cluster_name, "cluster1");
    assert!(s.online);
    assert!(!s.maintain);
    assert_eq!(s.role, "master");
}
