use vstd::prelude::*;

verus! {

/// The body of a reply sent under the `Error` opcode.
pub struct ReponseErr {
    pub err: String,
}

/// Liveness and replication snapshot of a database node.
#[derive(Debug, Clone)]
pub struct MysqlState {
    pub online: bool,
    pub role: String,
    pub sql_thread: bool,
    pub io_thread: bool,
    pub seconds_behind: usize,
    pub error: String,
}

/// Request to check again a node that looks down.
#[derive(Debug, Clone)]
pub struct DownNodeCheck {
    pub host: String,
    pub dbport: usize,
}

impl DownNodeCheck {
    pub fn new(host: String, dbport: usize) -> (r: DownNodeCheck)
        ensures
            r.host == host,
            r.dbport == dbport,
    {
        DownNodeCheck { host, dbport }
    }
}

/// Result of checking a node that looked down.
#[derive(Debug, Clone)]
pub struct DownNodeCheckStatus {
    pub host: String,
    pub client_status: bool,
    pub db_status: bool,
}

impl DownNodeCheckStatus {
    /// An empty result: no host, nothing reachable.
    pub fn new() -> (r: DownNodeCheckStatus)
        ensures
            r.host@ == Seq::<char>::empty(),
            !r.client_status,
            !r.db_status,
    {
        DownNodeCheckStatus { host: String::new(), client_status: false, db_status: false }
    }
}

/// A replica's binlog file and read position.
#[derive(Debug)]
pub struct ReplicationState {
    pub log_name: String,
    pub read_log_pos: usize,
}

/// The binlog coordinates a newly promoted master starts from.
#[derive(Debug)]
pub struct SetMasterStatus {
    pub log_name: String,
    pub log_pos: String,
    pub gtid: String,
}

/// Request for the binlog after a (file, position) cursor.
pub struct SyncBinlogInfo {
    pub binlog: String,
    pub position: usize,
}

/// Raw binlog bytes sent back for a `SyncBinlogInfo` request.
pub struct BinlogValue {
    pub value: Vec<u8>,
}

/// The master a replica must point to.
pub struct ChangeMasterInfo {
    pub master_host: String,
    pub master_port: String,
}

/// What a recovering node needs to resynchronise with the new master.
#[derive(Debug)]
pub struct RecoveryInfo {
    pub binlog: String,
    pub position: usize,
    pub gtid: String,
    pub masterhost: String,
    pub masterport: usize,
}

/// Forward and rollback SQL statements captured from one transaction.
#[derive(Debug, Clone)]
pub struct TractionValue {
    pub cur_sql: Vec<String>,
    pub rollback_sql: Vec<String>,
}

/// Transaction bundles of a node being rolled back, with an error text for a
/// partial failure.
#[derive(Debug, Clone)]
pub struct RowsSql {
    pub sqls: Vec<TractionValue>,
    pub error: String,
}

/// A node record of the cluster registry.
#[derive(Debug, Clone)]
pub struct HostInfoValue {
    pub host: String,
    pub dbport: usize,
    pub rtype: String,
    pub cluster_name: String,
    pub online: bool,
    pub insert_time: i64,
    pub update_time: i64,
    pub maintain: bool,
}

/// A registry record as listed with its replication role, without timestamps.
#[derive(Debug, Clone)]
pub struct HostInfoValueGetAllState {
    pub host: String,
    pub dbport: usize,
    pub rtype: String,
    pub cluster_name: String,
    pub online: bool,
    pub maintain: bool,
    pub role: String,
}

impl HostInfoValueGetAllState {
    /// Copies the registry fields of `host_info` and adds `role`.
    pub fn new(host_info: &HostInfoValue, role: String) -> (r: HostInfoValueGetAllState)
        ensures
            r.host@ == host_info.host@,
            r.dbport == host_info.dbport,
            r.rtype@ == host_info.rtype@,
            r.cluster_name@ == host_info.cluster_name@,
            r.online == host_info.online,
            r.maintain == host_info.maintain,
            r.role == role,
    {
        HostInfoValueGetAllState {
            host: host_info.host.clone(),
            dbport: host_info.dbport,
            rtype: host_info.rtype.clone(),
            cluster_name: host_info.cluster_name.clone(),
            online: host_info.online,
            maintain: host_info.maintain,
            role,
        }
    }
}

} // verus!
