use knowls::agents::{AgentID, AgentsError};
use knowls::interact::agent::{AgentInteract, AgentInteractVar};
use knowls::interact::InteractWrapper;
use knowls::knowledge::{Knowledge, LspDiagnostic};
use knowls::position::{DiagnosticSeverity, Position, Range};
use knowls::tokens::{ParsedComment, Token, TokenVec};

fn range(line: u32) -> Range {
    Range {
        start: Position { line, character: 0 },
        end: Position { line, character: 20 },
    }
}

fn comment(content: &str, line: u32) -> Token {
    Token::Comment(ParsedComment { content: content.to_string(), range: range(line) })
}

fn edited_knowledge() -> Knowledge {
    let old = TokenVec::new(vec![comment("@_ hi", 0), Token::Block("fn f() {}".to_string())], vec![0]);
    let new = TokenVec::new(vec![comment("@_ bye", 0), Token::Block("fn f() {}".to_string())], vec![0]);
    Knowledge::document_from_edit(Some(old), new)
}

#[test]
fn a_new_document_has_no_interacts() {
    let toks = TokenVec::new(vec![comment("@_ hi", 0)], vec![0]);
    let Knowledge::Document { tokens, interacts } = Knowledge::document_from_edit(None, toks);
    assert_eq!(tokens.len(), 1);
    assert!(interacts.is_empty());
}

#[test]
fn an_edited_comment_yields_its_old_interact() {
    let Knowledge::Document { tokens, interacts } = edited_knowledge();
    assert_eq!(tokens.get(0), Some(&comment("@_ bye", 0)));
    assert_eq!(interacts.len(), 1);
    assert_eq!(interacts[0].0, range(0));
    match &interacts[0].1 {
        InteractWrapper::Agent(a) => assert_eq!(
            a,
            &AgentInteract {
                range: range(0),
                agent_id: AgentID::Global,
                var: AgentInteractVar::Prompt(Some("hi".to_string())),
            }
        ),
        other => panic!("unexpected interact {other:?}"),
    }
}

#[test]
fn edits_of_code_yield_no_interacts() {
    let old = TokenVec::new(vec![comment("% db", 0), Token::Block("a".to_string())], vec![0]);
    let new = TokenVec::new(
        vec![comment("% db", 0), Token::Block("a".to_string()), Token::Block("b".to_string())],
        vec![0],
    );
    let Knowledge::Document { interacts, .. } = Knowledge::document_from_edit(Some(old), new);
    assert!(interacts.is_empty());
}

#[test]
fn diagnostics_for_known_agents() {
    let k = edited_knowledge();
    let r = LspDiagnostic::diagnose_document("file:///doc.rs".to_string(), Some(&k), &vec![AgentID::Global]);
    match r {
        Ok(LspDiagnostic::Publish(p)) => {
            assert_eq!(p.uri, "file:///doc.rs");
            assert_eq!(p.version, None);
            assert_eq!(p.diagnostics.len(), 1);
            assert_eq!(p.diagnostics[0].range, range(0));
            assert_eq!(p.diagnostics[0].severity, Some(DiagnosticSeverity::Hint));
            assert_eq!(p.diagnostics[0].message, "Prompt");
        }
        _ => panic!("expected diagnostics to publish"),
    }
}

#[test]
fn diagnostics_for_a_missing_agent_fail() {
    let k = edited_knowledge();
    let r = LspDiagnostic::diagnose_document("file:///doc.rs".to_string(), Some(&k), &vec![AgentID::Char('x')]);
    assert!(matches!(r, Err(AgentsError::AgentNotPresent(AgentID::Global))));
}

#[test]
fn no_interacts_clear_the_diagnostics() {
    let r = LspDiagnostic::diagnose_document("file:///doc.rs".to_string(), None, &vec![]);
    match r {
        Ok(LspDiagnostic::ClearDiagnostics(uri)) => assert_eq!(uri, "file:///doc.rs"),
        _ => panic!("expected the diagnostics to be cleared"),
    }
    let toks = TokenVec::new(vec![Token::Block("x".to_string())], vec![]);
    let k = Knowledge::document_from_edit(None, toks);
    assert!(matches!(
        LspDiagnostic::diagnose_document("u".to_string(), Some(&k), &vec![]),
        Ok(LspDiagnostic::ClearDiagnostics(_))
    ));
}

#[test]
fn supported_edits() {
    let old = TokenVec::new(vec![comment("@_ hi", 0), Token::Block("fn f() {}".to_string())], vec![0]);
    let new = TokenVec::new(vec![comment("@_ bye", 0), Token::Block("fn f() {}".to_string())], vec![0]);
    assert!(Knowledge::edit_is_supported(&old, &new, 10_000));
}

#[test]
fn edits_at_a_lone_push_are_unsupported() {
    let old = TokenVec::new(vec![comment("+", 0), Token::Block("fn f() {}".to_string())], vec![0]);
    let new = TokenVec::new(vec![comment("+a", 0), Token::Block("fn f() {}".to_string())], vec![0]);
    assert!(!Knowledge::edit_is_supported(&old, &new, 10_000));
}

#[test]
fn edits_whose_script_never_ends_are_unsupported() {
    let old = TokenVec::new(vec![comment("% db", 0), Token::Block("a".to_string())], vec![0]);
    let new = TokenVec::new(vec![comment("% db", 0), Token::Block("b".to_string())], vec![0]);
    assert!(!Knowledge::edit_is_supported(&old, &new, 10_000));
}
