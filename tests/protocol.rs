use ha_core::protocol::MyProtocol;

fn named_kinds() -> Vec<MyProtocol> {
    vec![
        MyProtocol::MysqlCheck,
        MyProtocol::GetMonitor,
        MyProtocol::GetSlowLog,
        MyProtocol::GetAuditLog,
        MyProtocol::SetMaster,
        MyProtocol::ChangeMaster,
        MyProtocol::SyncBinlog,
        MyProtocol::RecoveryCluster,
        MyProtocol::RecoveryValue,
        MyProtocol::ReplicationStatus,
        MyProtocol::DownNodeCheck,
        MyProtocol::Okay,
        MyProtocol::Error,
    ]
}

#[test]
fn opcode_round_trip_for_every_named_kind() {
    for kind in named_kinds() {
        assert_eq!(MyProtocol::new(&kind.get_code()), kind);
    }
}

#[test]
fn named_codes_are_distinct() {
    let kinds = named_kinds();
    for (i, a) in kinds.iter().enumerate() {
        for b in kinds.iter().skip(i + 1) {
            assert_ne!(a.get_code(), b.get_code());
        }
    }
}

#[test]
fn codes_of_kinds() {
    assert_eq!(MyProtocol::MysqlCheck.get_code(), 0xfe);
    assert_eq!(MyProtocol::GetMonitor.get_code(), 0xfd);
    assert_eq!(MyProtocol::GetSlowLog.get_code(), 0xfc);
    assert_eq!(MyProtocol::GetAuditLog.get_code(), 0xfb);
    assert_eq!(MyProtocol::SetMaster.get_code(), 0xfa);
    assert_eq!(MyProtocol::ChangeMaster.get_code(), 0xf9);
    assert_eq!(MyProtocol::SyncBinlog.get_code(), 0xf8);
    assert_eq!(MyProtocol::RecoveryCluster.get_code(), 0xf7);
    assert_eq!(MyProtocol::RecoveryValue.get_code(), 0xf6);
    assert_eq!(MyProtocol::ReplicationStatus.get_code(), 0xf5);
    assert_eq!(MyProtocol::DownNodeCheck.get_code(), 0xf4);
    assert_eq!(MyProtocol::Okay.get_code(), 0x00);
    assert_eq!(MyProtocol::Error.get_code(), 0x09);
    assert_eq!(MyProtocol::UnKnow.get_code(), 0xff);
}

#[test]
fn unassigned_codes_decode_to_unknown() {
    let assigned: Vec<u8> = named_kinds().iter().map(|k| k.get_code()).collect();
    let mut unknown_count = 0;
    for code in 0u8..=255 {
        if !assigned.contains(&code) {
            assert_eq!(MyProtocol::new(&code), MyProtocol::UnKnow);
            unknown_count += 1;
        }
    }
    assert_eq!(unknown_count, 256 - 13);
    assert_eq!(MyProtocol::new(&0xff), MyProtocol::UnKnow);
    assert_eq!(MyProtocol::new(&0x01), MyProtocol::UnKnow);
}
