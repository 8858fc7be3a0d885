use bard_tex::reorder::{key_le_exec, reorder_lines, sort_text, KeyedLine, ReorderError};

const TOC_KEY: &str = r"\\contentsline \{chapter\}\{(.*)\}\{";

fn line(text: &str, key: Option<&str>) -> KeyedLine {
    KeyedLine { text: text.to_string(), key: key.map(|k| k.chars().collect()) }
}

#[test]
fn runs_are_sorted_between_fixed_lines() {
    let text = "b 2\na 1\n-- sep\nd 4\nc 3\nc 0\n";
    let (out, n) = sort_text(r"^(\w) \d", text).unwrap();
    assert_eq!(out, "a 1\nb 2\n-- sep\nc 3\nc 0\nd 4\n");
    assert_eq!(n, 5);
}

#[test]
fn sorting_is_stable_and_idempotent() {
    let text = "x=2 first\nx=1\nx=2 second\n";
    let (once, n) = sort_text(r"x=(\d)", text).unwrap();
    assert_eq!(once, "x=1\nx=2 first\nx=2 second\n");
    assert_eq!(n, 3);
    let (twice, _) = sort_text(r"x=(\d)", &once).unwrap();
    assert_eq!(twice, once);
}

#[test]
fn keyless_lines_keep_their_place() {
    let text = "k:z\nplain\nk:b\nk:a\nplain2\nk:c";
    let (out, _) = sort_text("k:(.)", text).unwrap();
    assert_eq!(out, "k:z\nplain\nk:a\nk:b\nplain2\nk:c");
    let lines: Vec<&str> = out.split('\n').collect();
    assert_eq!(lines[1], "plain");
    assert_eq!(lines[4], "plain2");
}

#[test]
fn pattern_without_group_fails() {
    let r = sort_text("chapter", "chapter one\nother\n");
    assert_eq!(r, Err(ReorderError::MissingCaptureGroup("chapter".to_string())));
    // whatever the text holds, even when no line matches
    for text in ["", "nothing here\n", "x"] {
        assert_eq!(
            sort_text("chapter", text),
            Err(ReorderError::MissingCaptureGroup("chapter".to_string()))
        );
    }
    assert_eq!(
        sort_text("(?:x)", "x\n"),
        Err(ReorderError::MissingCaptureGroup("(?:x)".to_string()))
    );
}

#[test]
fn group_that_takes_no_part_fails() {
    let r = sort_text("a(b)?", "a\n");
    assert_eq!(r, Err(ReorderError::MissingCaptureGroup("a(b)?".to_string())));
}

#[test]
fn second_run_gives_same_count() {
    let text = "k3\n--\nk2\nk1\n";
    let (once, n1) = sort_text(r"k(\d)", text).unwrap();
    let (twice, n2) = sort_text(r"k(\d)", &once).unwrap();
    assert_eq!(once, "k3\n--\nk1\nk2\n");
    assert_eq!((twice.as_str(), n2), (once.as_str(), n1));
}

#[test]
fn invalid_pattern_fails() {
    let r = sort_text("(unclosed", "a\n");
    assert_eq!(r, Err(ReorderError::InvalidPattern("(unclosed".to_string())));
    assert_eq!(
        ReorderError::InvalidPattern("(x".to_string()).message(),
        "Invalid regex: `(x`"
    );
}

#[test]
fn no_match_leaves_text_identical() {
    for text in ["", "\n", "one\ntwo", "one\r\ntwo\r\n", "\n\nthree\n"] {
        let (out, n) = sort_text(r"zzz(\d)", text).unwrap();
        assert_eq!(out, text);
        assert_eq!(n, 0);
    }
}

#[test]
fn toc_entries_are_ordered() {
    let text = "\\contentsline {chapter}{Zebra}{1}\n\\contentsline {chapter}{Apple}{2}\n";
    let (out, n) = sort_text(TOC_KEY, text).unwrap();
    assert_eq!(out, "\\contentsline {chapter}{Apple}{2}\n\\contentsline {chapter}{Zebra}{1}\n");
    assert_eq!(n, 2);
}

#[test]
fn keys_compare_by_code_point() {
    let k = |s: &str| s.chars().collect::<Vec<char>>();
    assert!(key_le_exec(&k("B"), &k("a")));
    assert!(!key_le_exec(&k("a"), &k("B")));
    assert!(key_le_exec(&k("ab"), &k("abc")));
    assert!(key_le_exec(&k(""), &k("")));
    assert!(key_le_exec(&k("z"), &k("é")));
}

#[test]
fn reorder_lines_directly() {
    let v = vec![line("3", Some("c")), line("1", Some("a")), line("-", None), line("2", Some("b"))];
    let r = reorder_lines(v);
    let texts: Vec<String> = r.into_iter().map(|l| l.text).collect();
    assert_eq!(texts, vec!["1", "3", "-", "2"]);
}

#[test]
fn unicode_keys_sort_bytewise() {
    let (out, _) = sort_text("(.+)", "é\nz\na\n").unwrap();
    assert_eq!(out, "a\nz\né\n");
}

#[test]
fn missing_group_message() {
    assert_eq!(
        ReorderError::MissingCaptureGroup("a".to_string()).message(),
        "No capture group in regex: `a`, the sort key has to be in a capture group"
    );
}
