use knowls::agents::AgentID;
use knowls::interact::agent::{AgentInteract, AgentInteractVar};
use knowls::interact::database::{DBInteract, DBInteractVar};
use knowls::interact::logic::{AgentInteract as AgentCommand, DBInteract as DBCommand, Interact, InteractArg, InteractVar};
use knowls::interact::state::StateInteract;
use knowls::interact::{InteractError, InteractWrapper};
use knowls::position::{DiagnosticSeverity, Position, Range};
use knowls::tokens::{ParsedComment, Token, TokenVec};

fn line_range(end: u32) -> Range {
    Range {
        start: Position { line: 0, character: 0 },
        end: Position { line: 0, character: end },
    }
}

fn comment(content: &str, range: Range) -> Token {
    Token::Comment(ParsedComment { content: content.to_string(), range })
}

#[test]
fn agent_correctly_parses_interacts() {
    let range = Range {
        start: Position { line: 0, character: 0 },
        end: Position { line: 0, character: 12 },
    };
    let tok = Token::Comment(ParsedComment { content: "@_ someprompt".to_string(), range: range.clone() });
    let toks = TokenVec::new(vec![tok.clone()], vec![0]);
    let interact = AgentInteract::try_from(&toks, &tok, 0).unwrap();

    let expected_interact = AgentInteract {
        range,
        var: AgentInteractVar::Prompt(Some("someprompt".to_string())),
        agent_id: AgentID::try_from_char('_').unwrap(),
    };

    assert_eq!(interact, expected_interact);
}

#[test]
fn logic_correctly_parses_interacts() {
    let input = "@_ someprompt";
    let interact = Interact::try_from_str(input).unwrap();
    let expected_args = vec![InteractArg::Char('_'), InteractArg::String("someprompt".to_string())];

    let expected_interact = InteractVar::Agent(AgentCommand::Prompt);

    assert_eq!(interact.variant, expected_interact);
    assert_eq!(interact.parsed_args, expected_args);
}

#[test]
fn push_interact_takes_the_following_block() {
    let range = line_range(3);
    let tok = comment("+a", range);
    let block = Token::Block("struct ToBePushed;".to_string());
    let toks = TokenVec::new(vec![tok.clone(), block], vec![0]);
    let interact = AgentInteract::try_from(&toks, &tok, 0).unwrap();
    assert_eq!(
        interact,
        AgentInteract {
            range,
            agent_id: AgentID::Char('a'),
            var: AgentInteractVar::Push(Some("struct ToBePushed;".to_string())),
        }
    );
    let diags = interact.diagnostics();
    assert_eq!(diags.len(), 1);
    assert_eq!(diags[0].message, "Push");
    assert_eq!(diags[0].severity, Some(DiagnosticSeverity::Hint));
    assert_eq!(diags[0].range, range);
}

#[test]
fn push_interact_without_block_pushes_nothing() {
    let tok = comment("  +_  ", line_range(6));
    let toks = TokenVec::new(vec![tok.clone(), Token::End], vec![0]);
    let interact = AgentInteract::try_from(&toks, &tok, 0).unwrap();
    assert_eq!(interact.agent_id, AgentID::Global);
    assert_eq!(interact.var, AgentInteractVar::Push(None));
}

#[test]
fn prompt_interact_without_text_has_no_prompt() {
    let tok = comment("@_   ", line_range(5));
    let toks = TokenVec::new(vec![tok.clone()], vec![0]);
    let interact = AgentInteract::try_from(&toks, &tok, 0).unwrap();
    assert_eq!(interact.var, AgentInteractVar::Prompt(None));
    assert_eq!(interact.diagnostics()[0].message, "Prompt");
}

#[test]
fn agent_interact_errors() {
    let empty = comment("   ", line_range(3));
    let other = comment("hello there", line_range(11));
    let block = Token::Block("fn main() {}".to_string());
    let toks = TokenVec::new(vec![empty.clone(), other.clone(), block.clone()], vec![0, 1]);
    assert_eq!(AgentInteract::try_from(&toks, &empty, 0), Err(InteractError::EmptyContent));
    assert_eq!(AgentInteract::try_from(&toks, &other, 1), Err(InteractError::InvalidCommand('h')));
    assert_eq!(AgentInteract::try_from(&toks, &block, 2), Err(InteractError::WrongTokenVariant));
}

#[test]
fn database_interact_from_comment() {
    let range = line_range(1);
    let tok = comment("%", range);
    let db = DBInteract::try_from(&tok).unwrap();
    assert_eq!(db, DBInteract { range, var: DBInteractVar::Status });
    let diags = db.diagnostics();
    assert_eq!(diags.len(), 1);
    assert_eq!(diags[0].message, "Database Status");
    assert_eq!(DBInteract::try_from(&comment("", range)), Err(InteractError::EmptyContent));
    assert_eq!(DBInteract::try_from(&comment(" %", range)), Err(InteractError::InvalidCommand(' ')));
    assert_eq!(DBInteract::try_from(&Token::End), Err(InteractError::WrongTokenVariant));
}

#[test]
fn wrapper_picks_the_kind_of_interact() {
    let agent_tok = comment("@a why", line_range(6));
    let db_tok = comment("%", line_range(1));
    let plain = comment("just words", line_range(10));
    let toks = TokenVec::new(vec![agent_tok.clone(), db_tok.clone(), plain.clone()], vec![0, 1, 2]);
    assert!(matches!(InteractWrapper::try_from(&toks, &agent_tok, 0), Ok(InteractWrapper::Agent(_))));
    assert!(matches!(InteractWrapper::try_from(&toks, &db_tok, 1), Ok(InteractWrapper::DB(_))));
    assert!(matches!(InteractWrapper::try_from(&toks, &plain, 2), Err(InteractError::NotAnInteract)));
}

#[test]
fn interact_from_str_variants() {
    let db = Interact::try_from_str("   % status now").unwrap();
    assert_eq!(db.variant, InteractVar::DB(DBCommand));
    assert_eq!(db.parsed_args, vec![InteractArg::String("status".to_string()), InteractArg::String("now".to_string())]);

    let push = Interact::try_from_str("+a").unwrap();
    assert_eq!(push.variant, InteractVar::Agent(AgentCommand::Push));
    assert_eq!(push.parsed_args, vec![InteractArg::Char('a')]);

    assert!(Interact::try_from_str("").is_none());
    assert!(Interact::try_from_str("   ").is_none());
    assert!(Interact::try_from_str("hello").is_none());
}

#[test]
fn interact_arg_accessors() {
    let c = InteractArg::Char('x');
    let s = InteractArg::String("word".to_string());
    assert_eq!(c.as_char(), Some(&'x'));
    assert_eq!(c.as_string(), None);
    assert_eq!(s.as_char(), None);
    assert_eq!(s.as_string(), Some("word"));
}

#[test]
fn command_characters() {
    assert_eq!(AgentCommand::try_from_char('+'), Some(AgentCommand::Push));
    assert_eq!(AgentCommand::try_from_char('@'), Some(AgentCommand::Prompt));
    assert_eq!(AgentCommand::try_from_char('%'), None);
    assert_eq!(DBCommand::try_from_char('%'), Some(DBCommand));
    assert_eq!(DBCommand::try_from_char('@'), None);
    assert_eq!(StateInteract::try_from_char('%'), Ok(StateInteract::Database));
    assert_eq!(StateInteract::try_from_char('+'), Err(InteractError::InvalidCommand('+')));
    assert_eq!(StateInteract::Database.n_expected_args(), 1);
}
