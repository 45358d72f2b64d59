use vstd::prelude::*;

verus! {

/// The kind of a message, carried on the wire as a one-byte code.
///
/// `UnKnow` is what a code outside the known set decodes to; it is only
/// ever received, never sent.
#[derive(Debug, Clone, Copy, PartialEq, Eq, Structural)]
pub enum MyProtocol {
    MysqlCheck,
    GetMonitor,
    GetSlowLog,
    GetAuditLog,
    SetMaster,
    ChangeMaster,
    SyncBinlog,
    RecoveryCluster,
    RecoveryValue,
    ReplicationStatus,
    DownNodeCheck,
    Okay,
    Error,
    UnKnow,
}

/// The wire code of each kind. `UnKnow` has no code of its own; it is
/// written as 0xff, a code that no named kind uses.
pub open spec fn code_of(kind: MyProtocol) -> u8 {
    match kind {
        MyProtocol::MysqlCheck => 0xfe,
        MyProtocol::GetMonitor => 0xfd,
        MyProtocol::GetSlowLog => 0xfc,
        MyProtocol::GetAuditLog => 0xfb,
        MyProtocol::SetMaster => 0xfa,
        MyProtocol::ChangeMaster => 0xf9,
        MyProtocol::SyncBinlog => 0xf8,
        MyProtocol::RecoveryCluster => 0xf7,
        MyProtocol::RecoveryValue => 0xf6,
        MyProtocol::ReplicationStatus => 0xf5,
        MyProtocol::DownNodeCheck => 0xf4,
        MyProtocol::Okay => 0x00,
        MyProtocol::Error => 0x09,
        MyProtocol::UnKnow => 0xff,
    }
}

/// The kind that a wire code stands for; every code outside the known set
/// stands for `UnKnow`.
pub open spec fn kind_of(code: u8) -> MyProtocol {
    match code {
        0xfe => MyProtocol::MysqlCheck,
        0xfd => MyProtocol::GetMonitor,
        0xfc => MyProtocol::GetSlowLog,
        0xfb => MyProtocol::GetAuditLog,
        0xfa => MyProtocol::SetMaster,
        0xf9 => MyProtocol::ChangeMaster,
        0xf8 => MyProtocol::SyncBinlog,
        0xf7 => MyProtocol::RecoveryCluster,
        0xf6 => MyProtocol::RecoveryValue,
        0xf5 => MyProtocol::ReplicationStatus,
        0xf4 => MyProtocol::DownNodeCheck,
        0x00 => MyProtocol::Okay,
        0x09 => MyProtocol::Error,
        _ => MyProtocol::UnKnow,
    }
}

/// A kind that may be sent: every kind but `UnKnow`.
pub open spec fn is_named(kind: MyProtocol) -> bool {
    kind != MyProtocol::UnKnow
}

impl MyProtocol {
    /// Decodes a wire code; total over all byte values.
    pub fn new(code: &u8) -> (r: MyProtocol)
        ensures
            r == kind_of(*code),
    {
        match *code {
            0xfe => MyProtocol::MysqlCheck,
            0xfd => MyProtocol::GetMonitor,
            0xfc => MyProtocol::GetSlowLog,
            0xfb => MyProtocol::GetAuditLog,
            0xfa => MyProtocol::SetMaster,
            0xf9 => MyProtocol::ChangeMaster,
            0xf8 => MyProtocol::SyncBinlog,
            0xf7 => MyProtocol::RecoveryCluster,
            0xf6 => MyProtocol::RecoveryValue,
            0xf5 => MyProtocol::ReplicationStatus,
            0xf4 => MyProtocol::DownNodeCheck,
            0x00 => MyProtocol::Okay,
            0x09 => MyProtocol::Error,
            _ => MyProtocol::UnKnow,
        }
    }

    /// The wire code of this kind.
    pub fn get_code(&self) -> (r: u8)
        ensures
            r == code_of(*self),
    {
        match self {
            MyProtocol::MysqlCheck => 0xfe,
            MyProtocol::GetMonitor => 0xfd,
            MyProtocol::GetSlowLog => 0xfc,
            MyProtocol::GetAuditLog => 0xfb,
            MyProtocol::SetMaster => 0xfa,
            MyProtocol::ChangeMaster => 0xf9,
            MyProtocol::SyncBinlog => 0xf8,
            MyProtocol::RecoveryCluster => 0xf7,
            MyProtocol::RecoveryValue => 0xf6,
            MyProtocol::ReplicationStatus => 0xf5,
            MyProtocol::DownNodeCheck => 0xf4,
            MyProtocol::Okay => 0x00,
            MyProtocol::Error => 0x09,
            MyProtocol::UnKnow => 0xff,
        }
    }
}

/// Decoding the code of a named kind gives that kind back.
pub proof fn lemma_code_round_trip(kind: MyProtocol)
    requires
        is_named(kind),
    ensures
        kind_of(code_of(kind)) == kind,
{
}

/// Every byte that is not the code of a named kind decodes to `UnKnow`.
pub proof fn lemma_unassigned_code_is_unknown(code: u8)
    requires
        forall|k: MyProtocol| is_named(k) ==> code_of(k) != code,
    ensures
        kind_of(code) == MyProtocol::UnKnow,
{
    assert(is_named(kind_of(code)) ==> code_of(kind_of(code)) == code);
}

/// No two named kinds share a wire code.
pub proof fn lemma_code_injective(a: MyProtocol, b: MyProtocol)
    requires
        is_named(a),
        is_named(b),
        code_of(a) == code_of(b),
    ensures
        a == b,
{
    lemma_code_round_trip(a);
    lemma_code_round_trip(b);
}

} // verus!
