use knowls::agent_updates::{push_interacts_name_agents, push_updates};
use knowls::diff::Diff;
use knowls::position::{Position, Range};
use knowls::tokens::{ParsedComment, Token, TokenVec};

fn comment(content: &str, line: u32) -> Token {
    Token::Comment(ParsedComment {
        content: content.to_string(),
        range: Range { start: Position { line, character: 0 }, end: Position { line, character: 9 } },
    })
}

#[test]
fn a_changed_block_after_a_push_goes_to_its_agent() {
    let old = TokenVec::new(vec![comment("+a", 0), Token::Block("old code".to_string())], vec![0]);
    let new = TokenVec::new(vec![comment("+a", 0), Token::Block("new code".to_string())], vec![0]);
    // The script as the walk finds it: the comment is kept, the block changes.
    let script = vec![Diff::Delete(5), Diff::Change(1, Token::Block("new code".to_string()))];
    assert!(push_interacts_name_agents(&old));
    assert_eq!(push_updates(&old, &script), vec![('a', "new code".to_string())]);
    let _ = new;
}

#[test]
fn only_pushes_with_a_change_to_a_block_update_agents() {
    let old = TokenVec::new(
        vec![comment("@_ ask", 0), Token::Block("x".to_string()), comment("+b", 2), Token::End],
        vec![0, 2],
    );
    let script = vec![
        Diff::Change(0, Token::Block("y".to_string())),
        Diff::Change(1, Token::Block("z".to_string())),
        Diff::Insert(2, Token::End),
        Diff::Insert(3, Token::Block("w".to_string())),
    ];
    // The prompt names no push; the push at 2 finds an insertion at script entry 3.
    assert_eq!(push_updates(&old, &script), vec![]);
    let script2 = vec![
        Diff::Delete(0),
        Diff::Delete(1),
        Diff::Delete(2),
        Diff::Change(3, Token::Block("w".to_string())),
    ];
    assert_eq!(push_updates(&old, &script2), vec![('b', "w".to_string())]);
}

#[test]
fn pushes_must_name_agents() {
    let old = TokenVec::new(vec![comment("+ agentname", 0)], vec![0]);
    assert!(!push_interacts_name_agents(&old));
    let plain = TokenVec::new(vec![comment("just text", 0)], vec![0]);
    assert!(push_interacts_name_agents(&plain));
}
