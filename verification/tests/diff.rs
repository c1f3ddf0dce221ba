use knowls::diff::Diff;

fn chars(s: &str) -> Vec<char> {
    s.chars().collect()
}

#[test]
fn dp_table() {
    let string1: Vec<char> = "abxh".to_string().chars().into_iter().collect();
    let string2: Vec<char> = "abfhh".to_string().chars().into_iter().collect();
    let expected_table = vec![
        vec![(1, true), (1, false), (1, false), (1, false), (1, false)],
        vec![(1, false), (2, true), (2, false), (2, false), (2, false)],
        vec![(1, false), (2, false), (2, false), (2, false), (2, false)],
        vec![(1, false), (2, false), (2, false), (3, true), (3, true)],
    ];

    let table = Diff::get_dp_table(&string1, &string2);

    assert_eq!(expected_table, table);
}

#[test]
fn lcs() {
    let string1: Vec<char> = "abxh".to_string().chars().into_iter().collect();
    let string2: Vec<char> = "abfhh".to_string().chars().into_iter().collect();

    let lcs = Diff::get_lcs(&string1, &string2)
        .into_iter()
        .collect::<String>();
    let expected = "abh".to_string();
    assert_eq!(lcs, expected);
}

#[test]
fn lcs_of_identical_sequences_is_the_sequence() {
    let s = chars("hello");
    assert_eq!(Diff::get_lcs(&s, &s), s);
}

#[test]
fn no_diffs_between_identical_sequences() {
    let s = chars("same text");
    assert_eq!(Diff::get_diffs(&s, &s), Vec::<Diff<char>>::new());
}

#[test]
fn appended_element_is_an_insert() {
    assert_eq!(Diff::get_diffs(&chars("abc"), &chars("abcd")), vec![Diff::Insert(3, 'd')]);
}

#[test]
fn replaced_first_element_is_a_change() {
    assert_eq!(Diff::get_diffs(&chars("xbc"), &chars("ybc")), vec![Diff::Change(0, 'y')]);
}

#[test]
fn prepended_element_is_an_insert() {
    assert_eq!(Diff::get_diffs(&chars("bc"), &chars("abc")), vec![Diff::Insert(0, 'a')]);
}

/// Applies an edit script to `old` as its positions say: deletions and changes name
/// positions of `old`, insertions positions of the result.
fn patch(old: &[char], script: &[Diff<char>]) -> Vec<char> {
    let mut out = Vec::new();
    let mut i = 0;
    for d in script {
        match d {
            Diff::Delete(p) => {
                out.extend_from_slice(&old[i..*p]);
                i = p + 1;
            }
            Diff::Change(p, t) => {
                out.extend_from_slice(&old[i..*p]);
                out.push(*t);
                i = p + 1;
            }
            Diff::Insert(k, t) => {
                let n = k - out.len();
                out.extend_from_slice(&old[i..i + n]);
                out.push(*t);
                i += n;
            }
        }
    }
    out.extend_from_slice(&old[i..]);
    out
}

#[test]
fn diffs_turn_old_into_new() {
    let cases = [
        ("abc", "abcd"),
        ("xbc", "ybc"),
        ("bc", "abc"),
        ("aabc", "aba"),
        ("ab", "a"),
        ("kitten", "sitting!"),
        ("abcdef", "azcedf"),
        ("same", "same"),
    ];
    for (a, b) in cases {
        let (old, new) = (chars(a), chars(b));
        assert!(Diff::walk_ends(&old, &new, 10_000), "{a} -> {b}");
        let script = Diff::get_diffs(&old, &new);
        assert_eq!(patch(&old, &script), new, "{a} -> {b}");
    }
}

#[test]
fn the_table_of_an_empty_sequence_is_empty() {
    let e: Vec<char> = Vec::new();
    assert_eq!(Diff::get_dp_table(&e, &chars("abc")), Vec::<Vec<(usize, bool)>>::new());
}

#[test]
fn lcs_walks_back_through_the_table() {
    // Of the longest common subsequences "aa" and "ab", the walk finds "aa".
    assert_eq!(Diff::get_lcs(&chars("aabc"), &chars("aba")), chars("aa"));
    assert_eq!(Diff::get_lcs(&chars("kitten"), &chars("sitting!")), chars("ittn"));
}

#[test]
fn diffs_along_the_walked_subsequence() {
    assert_eq!(
        Diff::get_diffs(&chars("aabc"), &chars("aba")),
        vec![Diff::Insert(1, 'b'), Diff::Delete(2), Diff::Delete(3)]
    );
    assert_eq!(Diff::get_diffs(&chars("ab"), &chars("a")), vec![Diff::Delete(1)]);
    assert_eq!(
        Diff::get_diffs(&chars("abcdef"), &chars("azcedf")),
        vec![Diff::Change(1, 'z'), Diff::Delete(3), Diff::Insert(4, 'd')]
    );
}

#[test]
fn walks_that_end() {
    assert!(Diff::walk_ends(&chars("abc"), &chars("abcd"), 10_000));
    assert!(Diff::walk_ends(&chars("xbc"), &chars("ybc"), 10_000));
    assert!(Diff::walk_ends(&chars("same"), &chars("same"), 10_000));
    assert!(Diff::walk_ends(&chars("aabc"), &chars("aba"), 10_000));
}

#[test]
fn walks_that_do_not_end() {
    let e: Vec<char> = Vec::new();
    // An empty side has no table to walk.
    assert!(!Diff::walk_ends(&e, &chars("abc"), 10_000));
    // The walk back through the table goes round for ever.
    assert!(!Diff::walk_ends(&chars("abcd"), &chars("abc"), 10_000));
    // The walk back would take an index below zero.
    assert!(!Diff::walk_ends(&chars("abc"), &chars("bc"), 10_000));
    // The edit walk stalls once the common subsequence "a" is used up.
    assert!(!Diff::walk_ends(&chars("ab"), &chars("ac"), 10_000));
    // Too few steps.
    assert!(!Diff::walk_ends(&chars("abxh"), &chars("abfhh"), 2));
}

/// The walk back through the table, step by step as `get_lcs` describes it; `None` where it
/// would fail or not end within `limit` steps.
fn walk_back(a: &[char], b: &[char], limit: usize) -> Option<Vec<char>> {
    let dp = Diff::get_dp_table(&a.to_vec(), &b.to_vec());
    let (m, n) = (a.len() - 1, b.len() - 1);
    let e = dp[m][n].0;
    let (mut i, mut k) = (m, n);
    let mut found = Vec::new();
    let mut done = false;
    for _ in 0..limit {
        let (count, is_match) = dp[i][k];
        if found.len() > e {
            return None;
        }
        if count != e - found.len() {
            i = if i == m { 0 } else { i + 1 };
            k = if k == n { 0 } else { k + 1 };
            continue;
        }
        if is_match {
            found.push(a[i]);
            if i == 0 {
                done = true;
                break;
            }
            if k == 0 {
                return None;
            }
            i -= 1;
            k -= 1;
        } else if k > 0 {
            k -= 1;
        } else if i == 0 {
            done = true;
            break;
        } else {
            i -= 1;
            k = n;
        }
    }
    found.reverse();
    if done && found.len() == e {
        Some(found)
    } else {
        None
    }
}

#[test]
fn lcs_is_the_walked_subsequence_on_small_inputs() {
    let words: Vec<String> = (1..=4)
        .flat_map(|n| {
            (0..(1usize << n)).map(move |bits| (0..n).map(|p| if bits >> p & 1 == 1 { 'b' } else { 'a' }).collect())
        })
        .collect();
    let mut checked = 0;
    for a in &words {
        for b in &words {
            let (old, new) = (chars(a), chars(b));
            if let Some(expected) = walk_back(&old, &new, 10_000) {
                // Only a walk that ended (within the steps) is compared.
                assert_eq!(Diff::get_lcs(&old, &new), expected, "{a} / {b}");
                checked += 1;
            }
        }
    }
    assert!(checked > 50);
}
