use knowls::agents::{agent_id_from_name, string_to_agent_id, AgentID, AgentsError, GLOBAL_CHARACTER};
use knowls::cli::{CliAction, CliCommand};

#[test]
fn characters_name_agents() {
    assert_eq!(AgentID::from_char(GLOBAL_CHARACTER), AgentID::Global);
    assert_eq!(AgentID::from_char('c'), AgentID::Char('c'));
    assert_eq!(AgentID::try_from_char('_'), Some(AgentID::Global));
}

#[test]
fn agent_display_strings() {
    assert_eq!(AgentID::Global.to_display_string(), "Global");
    assert_eq!(AgentID::Char('x').to_display_string(), "Custom Agent(x)");
    assert_eq!(
        AgentID::Uri("file:///home/me/project/src/main.rs".to_string()).to_display_string(),
        "src/main.rs"
    );
    assert_eq!(AgentID::Uri("dir/file.rs".to_string()).to_display_string(), "dir/file.rs");
    assert_eq!(AgentID::Uri("/file.rs".to_string()).to_display_string(), "/file.rs");
}

#[test]
fn agent_id_conversions() {
    assert_eq!(AgentID::Char('x').try_into_char().unwrap(), 'x');
    assert!(matches!(
        AgentID::Global.try_into_char(),
        Err(AgentsError::IncorrectAgentIDVariant(AgentID::Global))
    ));
    assert_eq!(AgentID::Uri("file:///tmp/a.rs".to_string()).try_into_uri().unwrap(), "file:///tmp/a.rs");
    assert!(matches!(AgentID::Uri("has space".to_string()).try_into_uri(), Err(AgentsError::Undefined(_))));
    assert!(matches!(
        AgentID::Char('c').try_into_uri(),
        Err(AgentsError::IncorrectAgentIDVariant(AgentID::Char('c')))
    ));
}

#[test]
fn same_and_duplicate() {
    let a = AgentID::Uri("file:///x".to_string());
    assert!(a.same(&a.duplicate()));
    assert!(!a.same(&AgentID::Global));
    assert!(AgentID::Char('q').same(&AgentID::Char('q')));
    assert!(!AgentID::Char('q').same(&AgentID::Char('r')));
}

#[test]
fn names_on_the_command_line() {
    assert_eq!(string_to_agent_id("_"), Some(AgentID::Global));
    assert_eq!(string_to_agent_id("  c \n"), Some(AgentID::Char('c')));
    assert_eq!(string_to_agent_id(""), None);
    assert_eq!(string_to_agent_id("   "), None);
    assert_eq!(
        string_to_agent_id("file:///tmp/project/main.rs"),
        Some(AgentID::Uri("file:///tmp/project/main.rs".to_string()))
    );
    assert_eq!(string_to_agent_id("has space"), None);
}

#[test]
fn names_with_a_known_uri_answer() {
    assert_eq!(agent_id_from_name("some/doc.rs", true), Some(AgentID::Uri("some/doc.rs".to_string())));
    assert_eq!(agent_id_from_name("some/doc.rs", false), None);
    assert_eq!(agent_id_from_name(" x ", false), Some(AgentID::Char('x')));
    assert_eq!(agent_id_from_name("", true), None);
}

#[test]
fn cli_commands_plan_actions() {
    assert!(matches!(CliCommand::Logs { clear: true }.plan(), CliAction::ShowLogs { clear: true }));
    assert!(matches!(
        CliCommand::Start { agent_name: "_".to_string() }.plan(),
        CliAction::OpenChat(AgentID::Global)
    ));
    match (CliCommand::Start { agent_name: "bad name".to_string() }).plan() {
        CliAction::UnknownAgent(n) => assert_eq!(n, "bad name"),
        other => panic!("unexpected action {other:?}"),
    }
}
