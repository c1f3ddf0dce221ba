use knowls::agents::AgentID;
use knowls::config::{
    database_status, AgentSettings, Config, ConfigFromFile, DatabaseConfig, DatabaseConfigFromFile, Protocol,
};

const ALL: [Protocol; 8] = [
    Protocol::Ws,
    Protocol::Wss,
    Protocol::Http,
    Protocol::Https,
    Protocol::Mem,
    Protocol::File,
    Protocol::Rocksdb,
    Protocol::Surrealkv,
];

#[test]
fn protocol_names() {
    let names: Vec<&str> = ALL.iter().map(|p| p.as_str()).collect();
    assert_eq!(names, vec!["ws", "wss", "http", "https", "mem", "file", "rocksdb", "surrealkv"]);
}

#[test]
fn protocol_round_trip() {
    for p in ALL {
        assert_eq!(Protocol::from_str(p.as_str()), Some(p));
    }
    assert_eq!(Protocol::from_str("ftp"), None);
    assert_eq!(Protocol::from_str("WS"), None);
    assert_eq!(Protocol::from_str(""), None);
}

#[test]
fn default_database_config() {
    let d = DatabaseConfig::default();
    assert_eq!(d.namespace, "namespace");
    assert_eq!(d.database, "database");
    assert_eq!(d.user, "user");
    assert_eq!(d.pass, "pass");
    assert_eq!(d.port, "19917");
    assert_eq!(d.host, "127.0.0.1");
    assert_eq!(d.protocol, Protocol::Mem);
    assert_eq!(d.endpoint_url(), "mem://127.0.0.1:19917");
    assert_eq!(d.duplicate(), d);
}

#[test]
fn file_section_fills_in_defaults() {
    let f = DatabaseConfigFromFile {
        namespace: Some("ns".to_string()),
        database: None,
        user: Some("me".to_string()),
        pass: None,
        port: Some("8000".to_string()),
        host: None,
        protocol: Some(Protocol::Ws),
    };
    let c = f.into();
    assert_eq!(c.namespace, "ns");
    assert_eq!(c.database, "database");
    assert_eq!(c.user, "me");
    assert_eq!(c.pass, "pass");
    assert_eq!(c.port, "8000");
    assert_eq!(c.host, "127.0.0.1");
    assert_eq!(c.protocol, Protocol::Ws);
    assert_eq!(c.endpoint_url(), "ws://127.0.0.1:8000");
}

#[test]
fn config_from_file() {
    let file = ConfigFromFile {
        database: None,
        agents: Some(vec![
            ('_', AgentSettings { sys_prompt: "global".to_string() }),
            ('c', AgentSettings { sys_prompt: "custom".to_string() }),
        ]),
    };
    let config = Config::from(file, "/home/me/project".to_string());
    assert_eq!(config.pwd, "/home/me/project");
    assert_eq!(config.database, None);
    let agents = config.agents.unwrap();
    assert_eq!(agents.len(), 2);
    assert_eq!(agents[0].0, AgentID::Global);
    assert_eq!(agents[0].1.sys_prompt, "global");
    assert_eq!(agents[1].0, AgentID::Char('c'));
    assert_eq!(agents[1].1.sys_prompt, "custom");
}

#[test]
fn config_without_agents() {
    let empty = Config::from(ConfigFromFile { database: None, agents: Some(vec![]) }, "/p".to_string());
    assert_eq!(empty.agents, None);
    let none = Config::from(ConfigFromFile { database: None, agents: None }, "/p".to_string());
    assert_eq!(none.agents, None);
    let with_db = Config::from(
        ConfigFromFile {
            database: Some(DatabaseConfigFromFile {
                namespace: None,
                database: None,
                user: None,
                pass: None,
                port: None,
                host: None,
                protocol: None,
            }),
            agents: None,
        },
        "/p".to_string(),
    );
    assert_eq!(with_db.database, Some(DatabaseConfig::default()));
}

#[test]
fn config_paths() {
    let config = Config::from(ConfigFromFile { database: None, agents: None }, "/home/me/project".to_string());
    assert_eq!(config.espx_ls_dir(), "/home/me/project/data");
    assert_eq!(config.conversation_file(), "/home/me/project/data/conversation.md");
    assert_eq!(config.database_directory(), "/home/me/project/data/db.surql");
    let slash = Config::from(ConfigFromFile { database: None, agents: None }, "/root/".to_string());
    assert_eq!(slash.database_directory(), "/root/data/db.surql");
}

#[test]
fn database_status_text() {
    assert_eq!(database_status(None), "No Database Connected");
    let d = DatabaseConfig::default();
    let indent = "\n                    ";
    let expected = format!(
        "{indent}----- Database Status -----{indent}namespace: namespace{indent}database: database{indent}user: user{indent}pass: pass{indent}port: 19917{indent}---------------------------"
    );
    assert_eq!(database_status(Some(&d)), expected);
}
