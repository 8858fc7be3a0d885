use bard_tex::input::{sort_paths, InputError, InputSet, SongsGlobs};

fn listing() -> Vec<String> {
    ["songs/b.md", "songs/a.md", "songs/x.txt", "songs/sub/c.md"]
        .iter()
        .map(|s| s.to_string())
        .collect()
}

#[test]
fn glob_selects_sorted_matches_in_pattern_order() {
    let set = InputSet::new("songs".to_string(), listing());
    let set = set.apply_glob("*.txt").unwrap().apply_glob("*.md").unwrap();
    assert_eq!(
        set.finalize(),
        vec!["songs/x.txt", "songs/a.md", "songs/b.md", "songs/sub/c.md"]
    );
}

#[test]
fn glob_without_match_fails() {
    let set = InputSet::new("songs".to_string(), listing());
    match set.apply_glob("*.pdf") {
        Err(InputError::NoMatch { glob, dir }) => {
            assert_eq!(glob, "*.pdf");
            assert_eq!(dir, "songs");
        }
        _ => panic!("expected no match"),
    }
}

#[test]
fn invalid_glob_fails() {
    let set = InputSet::new("songs".to_string(), listing());
    assert!(matches!(set.apply_glob("{a"), Err(InputError::InvalidGlob(_))));
}

#[test]
fn plain_names_are_looked_up() {
    let set = InputSet::new("/".to_string(), vec![]);
    let set = set.apply_glob("tmp").unwrap();
    assert_eq!(set.match_set, vec!["/tmp"]);
    let set = InputSet::new("/".to_string(), vec![]);
    assert_eq!(
        set.apply_glob("no-such-file-here.md").map(|s| s.finalize()),
        Err(InputError::FileNotFound("/no-such-file-here.md".to_string()))
    );
}

#[test]
fn globlike_detection() {
    assert!(InputSet::is_globlike("*.md"));
    assert!(InputSet::is_globlike("song?.md"));
    assert!(InputSet::is_globlike("{a,b}.md"));
    assert!(!InputSet::is_globlike("song.md"));
}

#[test]
fn songs_globs_iterate_in_order() {
    assert_eq!(SongsGlobs::default().iter(), vec!["*.md"]);
    let many = SongsGlobs::Many(vec!["a.md".to_string(), "*.md".to_string()]);
    assert_eq!(many.iter(), vec!["a.md", "*.md"]);
}

#[test]
fn paths_sort_lexically() {
    let v = vec!["b".to_string(), "B".to_string(), "a/z".to_string(), "a".to_string()];
    assert_eq!(sort_paths(v), vec!["B", "a", "a/z", "b"]);
}

#[test]
fn existing_file_is_added() {
    let set = InputSet::new("songs".to_string(), listing());
    let set = set.add_file("songs/a.md".to_string(), true).unwrap();
    assert_eq!(set.finalize(), vec!["songs/a.md"]);
    let set = InputSet::new("songs".to_string(), listing());
    assert!(matches!(
        set.add_file("songs/zz.md".to_string(), false),
        Err(InputError::FileNotFound(p)) if p == "songs/zz.md"
    ));
}

#[test]
fn deeply_nested_glob_is_an_error_not_a_panic() {
    let mut glob = String::from("a");
    for _ in 0..300 {
        glob = format!("{{a,{}}}", glob);
    }
    let set = InputSet::new("songs".to_string(), listing());
    assert!(set.apply_glob(&glob).is_err());
}
