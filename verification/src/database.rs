//! Starting the local database instance: the command line it is started with.
use crate::config::{str_eq, DatabaseConfig};
use vstd::prelude::*;
use vstd::string::StringExecFns;

verus! {

/// The host the local database instance binds to.
pub const LOCALHOST: &'static str = "127.0.0.1";

/// The arguments of `surreal` that start the instance for `config` on the RocksDB files at
/// `database_path`: log at debug level, bind to `127.0.0.1:<port>`.
pub open spec fn start_args(port: Seq<char>, database_path: Seq<char>) -> Seq<Seq<char>> {
    seq![
        "start"@,
        "--log"@,
        "debug"@,
        "--bind"@,
        "127.0.0.1:"@ + port,
        "rocksdb://"@ + database_path,
    ]
}

/// The command line (after the program name `surreal`) that starts the database instance.
pub fn surreal_start_args(config: &DatabaseConfig, database_path: &str) -> (r: Vec<String>)
    ensures
        r@.map_values(|s: String| s@) == start_args(config.port@, database_path@),
{
    let mut address = String::from_str(LOCALHOST);
    address.append(":");
    address.append(config.port.as_str());
    let mut path_arg = String::from_str("rocksdb://");
    path_arg.append(database_path);
    let mut out: Vec<String> = Vec::new();
    out.push(String::from_str("start"));
    out.push(String::from_str("--log"));
    out.push(String::from_str("debug"));
    out.push(String::from_str("--bind"));
    out.push(address);
    out.push(path_arg);
    proof {
        reveal_strlit("127.0.0.1");
        reveal_strlit("127.0.0.1:");
        reveal_strlit(":");
        assert(LOCALHOST@ + ":"@ + config.port@ =~= "127.0.0.1:"@ + config.port@);
        assert(out@.map_values(|s: String| s@) =~= start_args(config.port@, database_path@));
    }
    out
}

/// How the local instance is started for `config`: only when the configured host is the local
/// address is an instance started, with `surreal_start_args`; a configuration that names
/// another host starts nothing (the database runs elsewhere).
pub fn start_plan(config: &DatabaseConfig, database_path: &str) -> (r: Option<Vec<String>>)
    ensures
        config.host@ != "127.0.0.1"@ ==> r is None,
        config.host@ == "127.0.0.1"@ ==> (r matches Some(v) && v@.map_values(|s: String| s@)
            == start_args(config.port@, database_path@)),
{
    proof {
        reveal_strlit("127.0.0.1");
    }
    if str_eq(config.host.as_str(), LOCALHOST) {
        Some(surreal_start_args(config, database_path))
    } else {
        None
    }
}

} // verus!
