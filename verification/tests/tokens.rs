use knowls::position::{cmp_pos_range, pos_in_range, ranges_overlap, Position, Range};
use knowls::rpc::{HealthRequest, Namespace};
use knowls::text::{string_from_chars, trim_string};
use knowls::tokens::{ParsedComment, Token, TokenVec};
use std::cmp::Ordering;

fn pos(line: u32, character: u32) -> Position {
    Position { line, character }
}

fn range(a: (u32, u32), b: (u32, u32)) -> Range {
    Range { start: pos(a.0, a.1), end: pos(b.0, b.1) }
}

fn doc() -> TokenVec {
    TokenVec::new(
        vec![
            Token::Comment(ParsedComment::new("first", range((0, 0), (0, 8)))),
            Token::Block("fn a() {}\n".to_string()),
            Token::CommentStr,
            Token::Comment(ParsedComment::new("second", range((2, 4), (3, 2)))),
            Token::Block("fn b() {}".to_string()),
            Token::End,
        ],
        vec![0, 3],
    )
}

#[test]
fn positions_against_ranges() {
    let r = range((1, 4), (3, 2));
    assert_eq!(cmp_pos_range(&r, &pos(0, 9)), Ordering::Less);
    assert_eq!(cmp_pos_range(&r, &pos(1, 3)), Ordering::Less);
    assert_eq!(cmp_pos_range(&r, &pos(1, 4)), Ordering::Equal);
    assert_eq!(cmp_pos_range(&r, &pos(2, 100)), Ordering::Equal);
    assert_eq!(cmp_pos_range(&r, &pos(3, 2)), Ordering::Equal);
    assert_eq!(cmp_pos_range(&r, &pos(3, 3)), Ordering::Greater);
    assert_eq!(cmp_pos_range(&r, &pos(4, 0)), Ordering::Greater);
    assert!(pos_in_range(&r, &pos(2, 0)));
    assert!(!pos_in_range(&r, &pos(0, 0)));
}

#[test]
fn overlapping_ranges() {
    assert!(ranges_overlap(&range((0, 0), (2, 0)), &range((1, 0), (3, 0))));
    assert!(ranges_overlap(&range((1, 0), (1, 5)), &range((1, 2), (1, 8))));
    assert!(!ranges_overlap(&range((4, 0), (5, 0)), &range((1, 0), (2, 0))));
    assert!(!ranges_overlap(&range((1, 6), (1, 9)), &range((1, 2), (1, 4))));
}

#[test]
fn comments_by_position() {
    let toks = doc();
    let (c, idx) = toks.comment_in_position(&pos(3, 0)).unwrap();
    assert_eq!(c.content, "second");
    assert_eq!(idx, 3);
    let (c, idx) = toks.comment_in_position(&pos(0, 3)).unwrap();
    assert_eq!(c.content, "first");
    assert_eq!(idx, 0);
    assert!(toks.comment_in_position(&pos(1, 0)).is_none());
}

#[test]
fn token_vec_accessors() {
    let toks = doc();
    assert_eq!(toks.len(), 6);
    assert_eq!(toks.comment_indices(), &vec![0, 3]);
    assert_eq!(toks.get(5), Some(&Token::End));
    assert_eq!(toks.get(6), None);
    assert_eq!(toks.as_ref().len(), 6);
    assert_eq!(toks.to_string(), "fn a() {}\nfn b() {}");
    let comments = toks.comments();
    assert_eq!(comments.len(), 2);
    assert_eq!(comments[1].0, 3);
    assert_eq!(comments[1].1.content, "second");
    assert_eq!(comments[0].1.duplicate(), comments[0].1);
}

#[test]
fn token_kind_names() {
    assert_eq!(Token::End.variant_display(), "End");
    assert_eq!(Token::CommentStr.variant_display(), "CommentStr");
    assert_eq!(Token::Block(String::new()).variant_display(), "Block(String)");
    assert_eq!(
        Token::Comment(ParsedComment::new("x", range((0, 0), (0, 1)))).variant_display(),
        "Comment(ParsedComment)"
    );
}

#[test]
fn trimming_text() {
    assert_eq!(trim_string("  \t hello world \n"), "hello world");
    assert_eq!(trim_string("\u{3000}wide\u{2003}"), "wide");
    assert_eq!(trim_string("   "), "");
    assert_eq!(string_from_chars(&vec!['a', 'é', 'z']), "aéz");
}

#[test]
fn health_requests_belong_to_the_health_namespace() {
    assert_eq!(HealthRequest {}.namespace(), Namespace::Health);
}
