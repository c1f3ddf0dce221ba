use knowls::blocks::DBBlock;
use knowls::position::{Position, Range};
use knowls::tokens::{ParsedComment, Token, TokenVec};

fn comment(content: &str, line: u32) -> Token {
    Token::Comment(ParsedComment {
        content: content.to_string(),
        range: Range {
            start: Position { line, character: 0 },
            end: Position { line, character: content.len() as u32 + 3 },
        },
    })
}

/// The tokens of the test document: its comments, and the code between them as blocks.
fn test_doc_tokens() -> TokenVec {
    let toks = vec![
        comment("Comment without any command", 1),
        comment("@_hey", 3),
        Token::Block(
            "fn main() {\n    let mut raw = String::new();\n    io::stdin()\n        .read_to_string(&mut raw)\n        .expect(\"failed to read io\");\n}"
                .to_string(),
        ),
        comment("+_", 11),
        Token::Block("struct ToBePushed;".to_string()),
        Token::Block(
            "fn again() {\n    let mut raw = String::new();\n    io::stdin()\n        .read_to_string(&mut raw)\n        .expect(\"failed to read io\");\n}"
                .to_string(),
        ),
        Token::Block(
            "fn again_again() {\n    let mut raw = String::new();\n    io::stdin()\n        .read_to_string(&mut raw)\n        .expect(\"failed to read io\");\n}"
                .to_string(),
        ),
        Token::Block(
            "fn again_again_again() {\n    let mut raw = String::new();\n    io::stdin()\n        .read_to_string(&mut raw)\n        .expect(\"failed to read io\");\n}"
                .to_string(),
        ),
    ];
    TokenVec::new(toks, vec![0, 1, 3])
}

#[test]
fn correctly_parses_block() {
    let test_doc_1_uri = "test_doc_1.rs".to_string();
    let tokens = test_doc_tokens();

    let first_chunk_content = String::from(
        "fn main() {\n    let mut raw = String::new();\n    io::stdin()\n        .read_to_string(&mut raw)\n        .expect(\"failed to read io\");\n}struct ToBePushed;fn again() {\n    let mut raw = String::new();\n    io::stdin()\n        .read_to_string(&mut raw)\n        .expect(\"failed to read io\");\n}fn again_again() {\n    let mut raw = String::new();\n    io::stdin()\n        .read_to_string(&mut raw)\n        .expect(\"failed to read io\");\n}fn again_again_again() {\n    let mut raw = String::new();\n    io::stdin()\n        .read_to_string(&mut raw)\n        .expect(\"failed to read io\");\n}",
    );
    let second_chunk_content = String::from(
        r#"fn again_again_again() {
    let mut raw = String::new();
    io::stdin()
        .read_to_string(&mut raw)
        .expect("failed to read io");
}"#,
    );

    let doc_block1 = DBBlock::new(test_doc_1_uri.clone(), 0, first_chunk_content);
    let doc_block2 = DBBlock::new(test_doc_1_uri.clone(), 1, second_chunk_content);

    let expected = vec![doc_block1, doc_block2];

    let out = DBBlock::from_tokens(&tokens, &test_doc_1_uri);

    for (i, val) in out.iter().enumerate() {
        if i == 0 {
            assert!(val.content.clone().lines().count() <= DBBlock::LINES_PER_BLOCK - 1);
        }
        if !expected.contains(&val) {
            panic!("expected does not contain values:\nEXPECTED: {expected:#?}\nVALUE: {val:#?}")
        }
    }
}

#[test]
fn the_test_document_makes_one_block() {
    let out = DBBlock::from_tokens(&test_doc_tokens(), &"doc.rs".to_string());
    assert_eq!(out.len(), 1);
    assert_eq!(out[0].idx, 0);
    assert_eq!(out[0].uri, "doc.rs");
    assert_eq!(out[0].content.lines().count(), 21);
}

#[test]
fn long_documents_are_cut_every_twenty_five_lines() {
    let text: String = (0..60).map(|i| format!("line {i}\n")).collect();
    let tokens = TokenVec::new(vec![Token::Block(text)], vec![]);
    let out = DBBlock::from_tokens(&tokens, &"long.rs".to_string());
    assert_eq!(out.len(), 3);
    let first: Vec<String> = (0..25).map(|i| format!("line {i}")).collect();
    let third: Vec<String> = (50..60).map(|i| format!("line {i}")).collect();
    assert_eq!(out[0].content, first.join("\n"));
    assert_eq!(out[2].content, third.join("\n"));
    assert_eq!(out[2].idx, 2);
}

#[test]
fn blank_documents_make_no_blocks() {
    let tokens = TokenVec::new(vec![Token::Block("  \n\t\n".to_string()), comment("note", 2)], vec![1]);
    assert!(DBBlock::from_tokens(&tokens, &"blank.rs".to_string()).is_empty());
    let none = TokenVec::new(vec![], vec![]);
    assert!(DBBlock::from_tokens(&none, &"empty.rs".to_string()).is_empty());
}

#[test]
fn a_blank_chunk_ends_the_blocks() {
    // 25 lines of code, 25 blank lines, then more code: the blank chunk stops the cut.
    let mut text = String::new();
    for i in 0..25 {
        text.push_str(&format!("code {i}\n"));
    }
    for _ in 0..25 {
        text.push('\n');
    }
    text.push_str("late code\n");
    let tokens = TokenVec::new(vec![Token::Block(text)], vec![]);
    let out = DBBlock::from_tokens(&tokens, &"gap.rs".to_string());
    assert_eq!(out.len(), 1);
}

#[test]
fn carriage_returns_end_lines() {
    let tokens = TokenVec::new(vec![Token::Block("a\r\nb\r\n".to_string())], vec![]);
    let out = DBBlock::from_tokens(&tokens, &"crlf.rs".to_string());
    assert_eq!(out.len(), 1);
    assert_eq!(out[0].content, "a\nb");
}

#[test]
fn record_ids_are_the_path_and_the_number() {
    assert_eq!(DBBlock::new("test_doc_1.rs".to_string(), 0, String::new()).record_id, "test_doc_1.rs0");
    assert_eq!(DBBlock::new("file:///home/me/a.rs".to_string(), 12, String::new()).record_id, "/home/me/a.rs12");
    let text: String = (0..60).map(|i| format!("line {i}\n")).collect();
    let tokens = TokenVec::new(vec![Token::Block(text)], vec![]);
    let out = DBBlock::from_tokens(&tokens, &"file:///p/long.rs".to_string());
    assert_eq!(out[2].record_id, "/p/long.rs2");
}

#[test]
fn blocks_of_a_document_that_is_no_uri() {
    let tokens = TokenVec::new(vec![Token::Block("code\n".to_string())], vec![]);
    assert_eq!(DBBlock::try_from_tokens(&tokens, &"has space".to_string()), None);
    let out = DBBlock::try_from_tokens(&tokens, &"file:///x.rs".to_string()).unwrap();
    assert_eq!(out.len(), 1);
    assert_eq!(out[0].record_id, "/x.rs0");
}
