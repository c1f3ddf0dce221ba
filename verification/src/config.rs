//! Configuration of the server: the database to connect to and the custom agents.
use crate::agents::{agent_of_char, AgentID};
use crate::text::chars_of;
use vstd::prelude::*;
use vstd::string::StringExecFns;

verus! {

/// How to reach the database. The server accepts only these of the database's schemes.
#[derive(Debug, Clone, Copy, PartialEq, Eq, Structural)]
pub enum Protocol {
    Ws,
    Wss,
    Http,
    Https,
    /// in-memory instance
    Mem,
    /// file-backed instance (currently uses RocksDB)
    File,
    /// RocksDB-backed instance
    Rocksdb,
    /// SurrealKV-backed instance
    Surrealkv,
}

/// The scheme that names a protocol.
pub open spec fn protocol_str(p: Protocol) -> Seq<char> {
    match p {
        Protocol::Ws => "ws"@,
        Protocol::Wss => "wss"@,
        Protocol::Http => "http"@,
        Protocol::Https => "https"@,
        Protocol::Mem => "mem"@,
        Protocol::File => "file"@,
        Protocol::Rocksdb => "rocksdb"@,
        Protocol::Surrealkv => "surrealkv"@,
    }
}

/// The protocol a scheme names, if any.
pub open spec fn protocol_of_str(s: Seq<char>) -> Option<Protocol> {
    if s == "ws"@ {
        Some(Protocol::Ws)
    } else if s == "wss"@ {
        Some(Protocol::Wss)
    } else if s == "http"@ {
        Some(Protocol::Http)
    } else if s == "https"@ {
        Some(Protocol::Https)
    } else if s == "mem"@ {
        Some(Protocol::Mem)
    } else if s == "file"@ {
        Some(Protocol::File)
    } else if s == "rocksdb"@ {
        Some(Protocol::Rocksdb)
    } else if s == "surrealkv"@ {
        Some(Protocol::Surrealkv)
    } else {
        None
    }
}

/// Whether two strings hold the same characters.
pub fn str_eq(a: &str, b: &str) -> (r: bool)
    ensures
        r == (a@ == b@),
{
    let va = chars_of(a);
    let vb = chars_of(b);
    if va.len() != vb.len() {
        return false;
    }
    let mut i: usize = 0;
    while i < va.len()
        invariant
            va@ == a@,
            vb@ == b@,
            va@.len() == vb@.len(),
            i <= va@.len(),
            forall|t: int| 0 <= t < i ==> va@[t] == vb@[t],
        decreases va@.len() - i,
    {
        if va[i] != vb[i] {
            return false;
        }
        i += 1;
    }
    proof {
        assert(va@ =~= vb@);
    }
    true
}

impl Protocol {
    /// The scheme the protocol is written as.
    pub fn as_str(&self) -> (r: &'static str)
        ensures
            r@ == protocol_str(*self),
    {
        match self {
            Self::Ws => "ws",
            Self::Wss => "wss",
            Self::Http => "http",
            Self::Https => "https",
            Self::Mem => "mem",
            Self::File => "file",
            Self::Rocksdb => "rocksdb",
            Self::Surrealkv => "surrealkv",
        }
    }

    /// The protocol whose scheme is `s`, as the configuration file is read.
    pub fn from_str(s: &str) -> (r: Option<Protocol>)
        ensures
            r == protocol_of_str(s@),
    {
        let all = [
            Protocol::Ws,
            Protocol::Wss,
            Protocol::Http,
            Protocol::Https,
            Protocol::Mem,
            Protocol::File,
            Protocol::Rocksdb,
            Protocol::Surrealkv,
        ];
        proof {
            reveal_strlit("ws");
            reveal_strlit("wss");
            reveal_strlit("http");
            reveal_strlit("https");
            reveal_strlit("mem");
            reveal_strlit("file");
            reveal_strlit("rocksdb");
            reveal_strlit("surrealkv");
        }
        let mut i: usize = 0;
        while i < 8
            invariant
                i <= 8,
                all@ == seq![
                    Protocol::Ws,
                    Protocol::Wss,
                    Protocol::Http,
                    Protocol::Https,
                    Protocol::Mem,
                    Protocol::File,
                    Protocol::Rocksdb,
                    Protocol::Surrealkv,
                ],
                forall|t: int| 0 <= t < i ==> s@ != protocol_str(#[trigger] all@[t]),
            decreases 8 - i,
        {
            if str_eq(all[i].as_str(), s) {
                return Some(all[i]);
            }
            i += 1;
        }
        proof {
            assert(s@ != protocol_str(all@[0]));
            assert(s@ != protocol_str(all@[1]));
            assert(s@ != protocol_str(all@[2]));
            assert(s@ != protocol_str(all@[3]));
            assert(s@ != protocol_str(all@[4]));
            assert(s@ != protocol_str(all@[5]));
            assert(s@ != protocol_str(all@[6]));
            assert(s@ != protocol_str(all@[7]));
        }
        None
    }
}

/// Law: a scheme is read as protocol `p` exactly when it is the scheme `p` is written as; a
/// scheme that no protocol is written as is read as none.
pub proof fn lemma_protocol_of_str_exact(s: Seq<char>, p: Protocol)
    ensures
        protocol_of_str(s) == Some(p) <==> protocol_str(p) == s,
        protocol_of_str(s) is None <==> forall|q: Protocol| protocol_str(q) != s,
{
    lemma_protocol_round_trip(p);
    if protocol_of_str(s) is None {
        assert forall|q: Protocol| protocol_str(q) != s by {
            lemma_protocol_round_trip(q);
        }
    } else {
        let q = protocol_of_str(s)->0;
        assert(protocol_str(q) == s);
    }
}

/// Law: reading back the scheme a protocol is written as gives the protocol again.
pub proof fn lemma_protocol_round_trip(p: Protocol)
    ensures
        protocol_of_str(protocol_str(p)) == Some(p),
{
    reveal_strlit("ws");
    reveal_strlit("wss");
    reveal_strlit("http");
    reveal_strlit("https");
    reveal_strlit("mem");
    reveal_strlit("file");
    reveal_strlit("rocksdb");
    reveal_strlit("surrealkv");
    let w = protocol_str(p);
    match p {
        Protocol::Ws => {},
        Protocol::Wss => {
            assert(w.len() != "ws"@.len());
        },
        Protocol::Http => {
            assert(w[0] != "ws"@[0]);
            assert(w[0] != "wss"@[0]);
        },
        Protocol::Https => {
            assert(w[0] != "ws"@[0]);
            assert(w[0] != "wss"@[0]);
            assert(w.len() != "http"@.len());
        },
        Protocol::Mem => {
            assert(w[0] != "ws"@[0]);
            assert(w[0] != "wss"@[0]);
            assert(w[0] != "http"@[0]);
            assert(w[0] != "https"@[0]);
        },
        Protocol::File => {
            assert(w[0] != "ws"@[0]);
            assert(w[0] != "wss"@[0]);
            assert(w[0] != "http"@[0]);
            assert(w[0] != "https"@[0]);
            assert(w[0] != "mem"@[0]);
        },
        Protocol::Rocksdb => {
            assert(w[0] != "ws"@[0]);
            assert(w[0] != "wss"@[0]);
            assert(w[0] != "http"@[0]);
            assert(w[0] != "https"@[0]);
            assert(w[0] != "mem"@[0]);
            assert(w[0] != "file"@[0]);
        },
        Protocol::Surrealkv => {
            assert(w[1] != "ws"@[1]);
            assert(w[0] != "http"@[0]);
            assert(w[0] != "https"@[0]);
            assert(w[0] != "mem"@[0]);
            assert(w[0] != "file"@[0]);
            assert(w[0] != "rocksdb"@[0]);
            assert(w.len() != "wss"@.len());
        },
    }
}


/// Where the database is and how to sign in to it.
#[derive(Debug, PartialEq, Eq)]
pub struct DatabaseConfig {
    pub namespace: String,
    pub database: String,
    pub user: String,
    pub pass: String,
    pub port: String,
    pub host: String,
    pub protocol: Protocol,
}

/// The database configuration used for what the configuration file leaves out.
pub open spec fn is_default_database_config(c: DatabaseConfig) -> bool {
    &&& c.namespace@ == "namespace"@
    &&& c.database@ == "database"@
    &&& c.user@ == "user"@
    &&& c.pass@ == "pass"@
    &&& c.port@ == "19917"@
    &&& c.host@ == "127.0.0.1"@
    &&& c.protocol == Protocol::Mem
}

impl Default for DatabaseConfig {
    fn default() -> (r: Self)
        ensures
            is_default_database_config(r),
    {
        Self {
            namespace: String::from_str("namespace"),
            database: String::from_str("database"),
            user: String::from_str("user"),
            pass: String::from_str("pass"),
            port: String::from_str("19917"),
            host: String::from_str("127.0.0.1"),
            protocol: Protocol::Mem,
        }
    }
}

impl DatabaseConfig {
    /// A copy of the configuration.
    pub fn duplicate(&self) -> (r: Self)
        ensures
            r.namespace@ == self.namespace@,
            r.database@ == self.database@,
            r.user@ == self.user@,
            r.pass@ == self.pass@,
            r.port@ == self.port@,
            r.host@ == self.host@,
            r.protocol == self.protocol,
    {
        DatabaseConfig {
            namespace: self.namespace.clone(),
            database: self.database.clone(),
            user: self.user.clone(),
            pass: self.pass.clone(),
            port: self.port.clone(),
            host: self.host.clone(),
            protocol: self.protocol,
        }
    }

    /// The address to connect to: `protocol://host:port`.
    pub fn endpoint_url(&self) -> (r: String)
        ensures
            r@ == protocol_str(self.protocol) + "://"@ + self.host@ + ":"@ + self.port@,
    {
        let mut url = String::from_str(self.protocol.as_str());
        url.append("://");
        url.append(self.host.as_str());
        url.append(":");
        url.append(self.port.as_str());
        url
    }
}

/// The database section of the configuration file: every field may be left out.
#[derive(Debug, PartialEq, Eq)]
pub struct DatabaseConfigFromFile {
    pub namespace: Option<String>,
    pub database: Option<String>,
    pub user: Option<String>,
    pub pass: Option<String>,
    pub port: Option<String>,
    pub host: Option<String>,
    pub protocol: Option<Protocol>,
}

/// The characters of `o`, or `d` when it is absent.
pub open spec fn or_default(o: Option<String>, d: Seq<char>) -> Seq<char> {
    match o {
        Some(s) => s@,
        None => d,
    }
}

/// `c` is the file's section `f` with the defaults filled in where it left a field out.
pub open spec fn filled_from(c: DatabaseConfig, f: DatabaseConfigFromFile) -> bool {
    &&& c.namespace@ == or_default(f.namespace, "namespace"@)
    &&& c.database@ == or_default(f.database, "database"@)
    &&& c.user@ == or_default(f.user, "user"@)
    &&& c.pass@ == or_default(f.pass, "pass"@)
    &&& c.port@ == or_default(f.port, "19917"@)
    &&& c.host@ == or_default(f.host, "127.0.0.1"@)
    &&& c.protocol == match f.protocol {
        Some(p) => p,
        None => Protocol::Mem,
    }
}

impl DatabaseConfigFromFile {
    /// The configuration with the defaults filled in where the file left a field out.
    pub fn into(self) -> (r: DatabaseConfig)
        ensures
            filled_from(r, self),
    {
        let d = DatabaseConfig::default();
        DatabaseConfig {
            namespace: match self.namespace {
                Some(v) => v,
                None => d.namespace,
            },
            database: match self.database {
                Some(v) => v,
                None => d.database,
            },
            user: match self.user {
                Some(v) => v,
                None => d.user,
            },
            pass: match self.pass {
                Some(v) => v,
                None => d.pass,
            },
            port: match self.port {
                Some(v) => v,
                None => d.port,
            },
            host: match self.host {
                Some(v) => v,
                None => d.host,
            },
            protocol: match self.protocol {
                Some(v) => v,
                None => d.protocol,
            },
        }
    }
}

/// The settings of a custom agent.
#[derive(Debug, PartialEq, Eq)]
pub struct AgentSettings {
    pub sys_prompt: String,
}

/// The configuration file: the database section and the custom agents, by character.
#[derive(Debug, PartialEq, Eq)]
pub struct ConfigFromFile {
    pub database: Option<DatabaseConfigFromFile>,
    pub agents: Option<Vec<(char, AgentSettings)>>,
}

/// The configuration of the server in the directory `pwd`.
#[derive(Debug, PartialEq, Eq)]
pub struct Config {
    pub pwd: String,
    pub database: Option<DatabaseConfig>,
    pub agents: Option<Vec<(AgentID, AgentSettings)>>,
}

/// `base` with the relative component `comp` pushed, as `PathBuf::push` does: a separator is
/// added unless `base` is empty or already ends with one.
pub open spec fn path_push(base: Seq<char>, comp: Seq<char>) -> Seq<char> {
    if base.len() > 0 && base.last() != '/' {
        base + "/"@ + comp
    } else {
        base + comp
    }
}

fn push_path(base: &mut String, comp: &str)
    ensures
        final(base)@ == path_push(old(base)@, comp@),
{
    let v = chars_of(base.as_str());
    if v.len() > 0 && v[v.len() - 1] != '/' {
        base.append("/");
    }
    base.append(comp);
}

impl Config {
    /// The configuration from the file found in `pwd`: the database section with its defaults
    /// filled in, and the custom agents by identifier (none when the file lists none); distinct
    /// characters name distinct agents, so no agent is listed twice when the file lists each
    /// character once.
    pub fn from(cfg: ConfigFromFile, pwd: String) -> (r: Config)
        ensures
            r.pwd@ == pwd@,
            match cfg.database {
                None => r.database is None,
                Some(f) => (r.database matches Some(d) && filled_from(d, f)),
            },
            match cfg.agents {
                None => r.agents is None,
                Some(v) => if v@.len() == 0 {
                    r.agents is None
                } else {
(r.agents matches Some(w) && w@.len() == v@.len() && (forall|t: int|
                        0 <= t < w@.len() ==> (#[trigger] w@[t]).0@ == agent_of_char(v@[t].0)
                            && w@[t].1 == v@[t].1) && forall|t1: int, t2: int|
                        0 <= t1 < w@.len() && 0 <= t2 < w@.len() && v@[t1].0 != v@[t2].0
                            ==> (#[trigger] w@[t1]).0@ != (#[trigger] w@[t2]).0@)
                },
            },
    {
        let database = match cfg.database {
            Some(db) => Some(db.into()),
            None => None,
        };
        let agents = match cfg.agents {
            None => None,
            Some(list) => {
                if list.len() == 0 {
                    None
                } else {
                    let ghost orig = list@;
                    let mut list = list;
                    let mut out: Vec<(AgentID, AgentSettings)> = Vec::new();
                    let mut rev: Vec<(AgentID, AgentSettings)> = Vec::new();
                    while list.len() > 0
                        invariant
                            list@ == orig.take(list@.len() as int),
                            list@.len() <= orig.len(),
                            rev@.len() + list@.len() == orig.len(),
                            forall|t: int|
                                0 <= t < rev@.len() ==> (#[trigger] rev@[t]).0@ == agent_of_char(
                                    orig[orig.len() - 1 - t].0,
                                ) && rev@[t].1 == orig[orig.len() - 1 - t].1,
                        decreases list@.len(),
                    {
                        let (c, settings) = list.pop().unwrap();
                        proof {
                            assert(list@ =~= orig.take(list@.len() as int));
                        }
                        rev.push((AgentID::from_char(c), settings));
                    }
                    while rev.len() > 0
                        invariant
                            out@.len() + rev@.len() == orig.len(),
                            forall|t: int|
                                0 <= t < rev@.len() ==> (#[trigger] rev@[t]).0@ == agent_of_char(
                                    orig[orig.len() - 1 - t].0,
                                ) && rev@[t].1 == orig[orig.len() - 1 - t].1,
                            forall|t: int|
                                0 <= t < out@.len() ==> (#[trigger] out@[t]).0@ == agent_of_char(
                                    orig[t].0,
                                ) && out@[t].1 == orig[t].1,
                        decreases rev@.len(),
                    {
                        let e = rev.pop().unwrap();
                        out.push(e);
                    }
                    Some(out)
                }
            },
        };
        Config { pwd, database, agents }
    }

    /// The data directory of the server: `data` under `pwd`.
    pub fn espx_ls_dir(&self) -> (r: String)
        ensures
            r@ == path_push(self.pwd@, "data"@),
    {
        let mut path = self.pwd.clone();
        push_path(&mut path, "data");
        path
    }

    /// The conversation file: `conversation.md` in the data directory.
    pub fn conversation_file(&self) -> (r: String)
        ensures
            r@ == path_push(path_push(self.pwd@, "data"@), "conversation.md"@),
    {
        let mut path = self.espx_ls_dir();
        push_path(&mut path, "conversation.md");
        path
    }

    /// The database file: `db.surql` in the data directory.
    pub fn database_directory(&self) -> (r: String)
        ensures
            r@ == path_push(path_push(self.pwd@, "data"@), "db.surql"@),
    {
        let mut path = self.espx_ls_dir();
        push_path(&mut path, "db.surql");
        path
    }
}

/// The status text shown when hovering over a database interact.
pub open spec fn database_status_text(config: Option<DatabaseConfig>) -> Seq<char> {
    let indent = "\n                    "@;
    match config {
        None => "No Database Connected"@,
        Some(c) => indent + "----- Database Status -----"@ + indent + "namespace: "@ + c.namespace@
            + indent + "database: "@ + c.database@ + indent + "user: "@ + c.user@ + indent
            + "pass: "@ + c.pass@ + indent + "port: "@ + c.port@ + indent
            + "---------------------------"@,
    }
}

/// The status text of the connected database, or a note that there is none.
pub fn database_status(config: Option<&DatabaseConfig>) -> (r: String)
    ensures
        r@ == database_status_text(
            match config {
                Some(c) => Some(*c),
                None => None,
            },
        ),
{
    match config {
        None => String::from_str("No Database Connected"),
        Some(c) => {
            let indent = "\n                    ";
            let mut out = String::from_str(indent);
            out.append("----- Database Status -----");
            out.append(indent);
            out.append("namespace: ");
            out.append(c.namespace.as_str());
            out.append(indent);
            out.append("database: ");
            out.append(c.database.as_str());
            out.append(indent);
            out.append("user: ");
            out.append(c.user.as_str());
            out.append(indent);
            out.append("pass: ");
            out.append(c.pass.as_str());
            out.append(indent);
            out.append("port: ");
            out.append(c.port.as_str());
            out.append(indent);
            out.append("---------------------------");
            out
        },
    }
}

} // verus!
