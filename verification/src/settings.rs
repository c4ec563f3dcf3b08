//! The settings the service reads at start.
use vstd::prelude::*;

verus! {

/// The settings of the service: where its no-sql reader, its log sink and its telemetry go.
#[derive(Debug, Clone)]
pub struct Settings {
    pub my_no_sql_tcp_reader: String,
    pub seq_conn_string: String,
    pub my_telemetry: String,
}

} // verus!
