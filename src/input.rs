//! The set of input files: glob patterns and plain names, resolved against
//! the listing of the songs directory.

use vstd::prelude::*;
use globset::{Glob, GlobSet};
use std::path::Path;
use crate::paths::{join_path, joined_path};
use crate::reorder::{entries, reorder_lines, reordered, Entry, KeyedLine};
use crate::text::views;

verus! {

/// `globset::GlobSet`, carried opaquely.
#[verifier::external_type_specification]
#[verifier::external_body]
pub struct ExGlobSet(GlobSet);

/// `globset::Error`, carried opaquely.
#[verifier::external_type_specification]
#[verifier::external_body]
pub struct ExGlobError(globset::Error);

/// Whether the glob library accepts `pattern`.
pub uninterp spec fn glob_compiles(pattern: Seq<char>) -> bool;

/// Whether the glob `pattern` matches the relative path `path`.
pub uninterp spec fn glob_matches(pattern: Seq<char>, path: Seq<char>) -> bool;

/// `path` relative to `base`; none when `base` is not a prefix of it.
pub uninterp spec fn relative_path(path: Seq<char>, base: Seq<char>) -> Option<Seq<char>>;

/// Relies on `globset::Glob::new` and `globset::GlobSet::new`: a set of
/// the one glob, which fails exactly on patterns that either does not
/// accept (`GlobSet::new` returns the error of building its matchers).
#[verifier::external_body]
fn compile_glob(pattern: &str) -> (r: Result<GlobSet, globset::Error>)
    ensures
        r is Ok <==> glob_compiles(pattern@),
{
    Glob::new(pattern).and_then(|g| GlobSet::new([g]))
}

/// Relies on `std::path::Path::strip_prefix`: `path` without the leading
/// components that make up `base`.
#[verifier::external_body]
fn strip_base(path: &str, base: &str) -> (r: Option<String>)
    ensures
        match (r, relative_path(path@, base@)) {
            (Some(s), Some(t)) => s@ == t,
            (None, None) => true,
            _ => false,
        },
{
    Path::new(path).strip_prefix(base).ok().map(|p| p.to_string_lossy().into_owned())
}

/// Relies on `std::path::Path::exists`: whether something is at `path` now.
/// What is on disk may change, so nothing is stated of the answer.
#[verifier::external_body]
fn path_exists(path: &str) -> bool {
    Path::new(path).exists()
}

/// A compiled glob with its source text.
pub struct GlobPattern {
    source: String,
    matcher: GlobSet,
}

impl GlobPattern {
    /// The source text.
    pub closed spec fn pattern(&self) -> Seq<char> {
        self.source@
    }

    /// Compiles `pattern`; `None` when it is not a valid glob.
    pub fn new(pattern: &str) -> (r: Option<GlobPattern>)
        ensures
            r is Some <==> glob_compiles(pattern@),
            r matches Some(g) ==> g.pattern() == pattern@,
    {
        match compile_glob(pattern) {
            Ok(matcher) => Some(GlobPattern { source: pattern.to_string(), matcher }),
            Err(_) => None,
        }
    }

    /// Relies on `globset::GlobSet::is_match`: whether the relative path
    /// matches the one glob of the set. `matcher` was compiled from `source` by `new`, the only
    /// place that builds a `GlobPattern`.
    #[verifier::external_body]
    pub(crate) fn is_match(&self, path: &str) -> (r: bool)
        ensures
            r == glob_matches(self.pattern(), path@),
    {
        self.matcher.is_match(path)
    }
}

/// The glob patterns of the project's songs: one, or a list.
pub enum SongsGlobs {
    One(String),
    Many(Vec<String>),
}

impl SongsGlobs {
    /// The patterns, in order.
    pub fn iter(&self) -> (r: Vec<String>)
        ensures
            views(r@) == match self {
                SongsGlobs::One(s) => seq![s@],
                SongsGlobs::Many(v) => views(v@),
            },
    {
        match self {
            SongsGlobs::One(s) => {
                let r = vec![s.clone()];
                assert(views(r@) =~= seq![s@]);
                r
            },
            SongsGlobs::Many(v) => {
                let mut r: Vec<String> = Vec::new();
                let mut i: usize = 0;
                while i < v.len()
                    invariant
                        i <= v.len(),
                        views(r@) == views(v@).take(i as int),
                    decreases v.len() - i,
                {
                    let ghost before = r@;
                    r.push(v[i].clone());
                    assert(views(r@) =~= views(before).push(v@[i as int]@));
                    assert(views(r@) =~= views(v@).take(i + 1));
                    i += 1;
                }
                assert(views(v@).take(i as int) =~= views(v@));
                r
            },
        }
    }
}

impl Default for SongsGlobs {
    fn default() -> (r: SongsGlobs)
        ensures
            r matches SongsGlobs::One(s) && s@ == "*.md"@,
    {
        SongsGlobs::One(String::from_str("*.md"))
    }
}

/// Why a pattern could not be resolved.
#[derive(Debug, PartialEq, Eq)]
pub enum InputError {
    /// The glob is not valid.
    InvalidGlob(String),
    /// The glob matched no file in the directory.
    NoMatch { glob: String, dir: String },
    /// The plain file name names no file.
    FileNotFound(String),
}

/// Whether `s` holds one of `*`, `?`, `{`, `}`.
pub open spec fn globlike(s: Seq<char>) -> bool {
    exists|i: int| 0 <= i < s.len() && (s[i] == '*' || s[i] == '?' || s[i] == '{' || s[i] == '}')
}

/// The files whose path relative to `dir` matches `pattern`, in listing
/// order.
pub open spec fn matching_files(files: Seq<Seq<char>>, dir: Seq<char>, pattern: Seq<char>) -> Seq<
    Seq<char>,
> {
    files.filter(
        |f: Seq<char>|
            relative_path(f, dir) is Some && glob_matches(pattern, relative_path(f, dir)->0),
    )
}

/// Paths as lines keyed by themselves.
pub open spec fn self_keyed(paths: Seq<Seq<char>>) -> Seq<Entry> {
    paths.map_values(|p: Seq<char>| (p, Some(p)))
}

/// Paths in lexical order, equal ones in their given order.
pub open spec fn sorted_paths(paths: Seq<Seq<char>>) -> Seq<Seq<char>> {
    reordered(self_keyed(paths)).map_values(|e: Entry| e.0)
}

/// The characters of `s`.
pub fn chars_of(s: &str) -> (r: Vec<char>)
    ensures
        r@ == s@,
{
    let n = s.unicode_len();
    let mut r: Vec<char> = Vec::new();
    let mut i: usize = 0;
    while i < n
        invariant
            n == s@.len(),
            i <= n,
            r@ == s@.take(i as int),
        decreases n - i,
    {
        r.push(s.get_char(i));
        assert(r@ =~= s@.take(i + 1));
        i += 1;
    }
    assert(s@.take(n as int) =~= s@);
    r
}

/// Sorts paths in lexical order, stably.
pub fn sort_paths(paths: Vec<String>) -> (r: Vec<String>)
    ensures
        views(r@) == sorted_paths(views(paths@)),
{
    let mut lines: Vec<KeyedLine> = Vec::new();
    let mut i: usize = 0;
    while i < paths.len()
        invariant
            i <= paths.len(),
            entries(lines@) == self_keyed(views(paths@)).take(i as int),
        decreases paths.len() - i,
    {
        let key = chars_of(paths[i].as_str());
        let ghost before = lines@;
        lines.push(KeyedLine { text: paths[i].clone(), key: Some(key) });
        assert(entries(lines@) =~= entries(before).push(lines@.last()@));
        assert(entries(lines@) =~= self_keyed(views(paths@)).take(i + 1));
        i += 1;
    }
    assert(self_keyed(views(paths@)).take(i as int) =~= self_keyed(views(paths@)));
    let sorted = reorder_lines(lines);
    let mut r: Vec<String> = Vec::new();
    let mut k: usize = 0;
    while k < sorted.len()
        invariant
            k <= sorted.len(),
            views(r@) == entries(sorted@).map_values(|e: Entry| e.0).take(k as int),
        decreases sorted.len() - k,
    {
        let ghost before = r@;
        r.push(sorted[k].text.clone());
        assert(views(r@) =~= views(before).push(sorted@[k as int].text@));
        assert(views(r@) =~= entries(sorted@).map_values(|e: Entry| e.0).take(k + 1));
        k += 1;
    }
    assert(entries(sorted@).map_values(|e: Entry| e.0).take(k as int) =~= entries(
        sorted@,
    ).map_values(|e: Entry| e.0));
    r
}

/// The files of the songs directory, and those selected so far.
pub struct InputSet {
    pub dir_songs: String,
    pub all_files: Vec<String>,
    pub match_set: Vec<String>,
}

impl InputSet {
    /// A set over `all_files`, the listing of `dir_songs`, with nothing
    /// selected yet.
    pub fn new(dir_songs: String, all_files: Vec<String>) -> (r: InputSet)
        ensures
            r.dir_songs@ == dir_songs@,
            r.all_files@ == all_files@,
            r.match_set@.len() == 0,
    {
        InputSet { dir_songs, all_files, match_set: Vec::new() }
    }

    /// Whether `s` reads as a glob rather than as a file name.
    pub fn is_globlike(s: &str) -> (r: bool)
        ensures
            r == globlike(s@),
    {
        let n = s.unicode_len();
        let mut i: usize = 0;
        while i < n
            invariant
                n == s@.len(),
                i <= n,
                forall|j: int|
                    0 <= j < i ==> !(#[trigger] s@[j] == '*' || s@[j] == '?' || s@[j] == '{' || s@[j]
                        == '}'),
            decreases n - i,
        {
            let c = s.get_char(i);
            if c == '*' || c == '?' || c == '{' || c == '}' {
                return true;
            }
            i += 1;
        }
        false
    }

    /// Selects what `glob` names. A glob adds the matching files of the
    /// listing, sorted, after those selected before, and fails when it
    /// matches none; a plain name adds that file of the songs directory,
    /// and fails when there is no such file.
    pub fn apply_glob(self, glob: &str) -> (r: Result<InputSet, InputError>)
        ensures
            globlike(glob@) ==> match r {
                Ok(s) => glob_compiles(glob@) && s.dir_songs == self.dir_songs && s.all_files
                    == self.all_files && matching_files(views(self.all_files@), self.dir_songs@, glob@).len() > 0
                    && views(s.match_set@) == views(self.match_set@) + sorted_paths(
                    matching_files(views(self.all_files@), self.dir_songs@, glob@),
                ),
                Err(InputError::InvalidGlob(g)) => !glob_compiles(glob@) && g@ == glob@,
                Err(InputError::NoMatch { glob: g, dir }) => glob_compiles(glob@)
                    && matching_files(views(self.all_files@), self.dir_songs@, glob@).len() == 0
                    && g@ == glob@ && dir@ == self.dir_songs@,
                Err(InputError::FileNotFound(_)) => false,
            },
            !globlike(glob@) ==> match r {
                Ok(s) => s.dir_songs == self.dir_songs && s.all_files == self.all_files && views(
                    s.match_set@,
                ) == views(self.match_set@).push(joined_path(self.dir_songs@, glob@)),
                Err(InputError::FileNotFound(p)) => p@ == joined_path(self.dir_songs@, glob@),
                _ => false,
            },
    {
        let mut this = self;
        if Self::is_globlike(glob) {
            let g = match GlobPattern::new(glob) {
                Some(g) => g,
                None => return Err(InputError::InvalidGlob(glob.to_string())),
            };
            let ghost files = views(this.all_files@);
            let ghost dir = this.dir_songs@;
            let mut added: Vec<String> = Vec::new();
            let mut i: usize = 0;
            while i < this.all_files.len()
                invariant
                    i <= this.all_files.len(),
                    files == views(this.all_files@),
                    dir == this.dir_songs@,
                    g.pattern() == glob@,
                    views(added@) == matching_files(files.take(i as int), dir, glob@),
                    this.dir_songs == self.dir_songs,
                    this.all_files == self.all_files,
                    this.match_set == self.match_set,
                decreases this.all_files.len() - i,
            {
                let f = &this.all_files[i];
                let keep = match strip_base(f.as_str(), this.dir_songs.as_str()) {
                    Some(rel) => g.is_match(rel.as_str()),
                    None => false,
                };
                proof {
                    let t = files.take(i + 1);
                    assert(t.drop_last() =~= files.take(i as int));
                    assert(t.last() == f@);
                    t.filter_lemma(
                        |p: Seq<char>|
                            relative_path(p, dir) is Some && glob_matches(
                                glob@,
                                relative_path(p, dir)->0,
                            ),
                    );
                    reveal_with_fuel(Seq::filter, 1);
                }
                let ghost before = added@;
                if keep {
                    added.push(f.clone());
                    assert(views(added@) =~= views(before).push(f@));
                }
                i += 1;
            }
            assert(files.take(i as int) =~= files);
            if added.len() == 0 {
                return Err(
                    InputError::NoMatch { glob: glob.to_string(), dir: this.dir_songs.clone() },
                );
            }
            let sorted = sort_paths(added);
            let mut k: usize = 0;
            let ghost start = views(this.match_set@);
            while k < sorted.len()
                invariant
                    k <= sorted.len(),
                    views(this.match_set@) == start + views(sorted@).take(k as int),
                    start == views(self.match_set@),
                    views(sorted@) == sorted_paths(matching_files(files, dir, glob@)),
                    matching_files(files, dir, glob@).len() > 0,
                    glob_compiles(glob@),
                    this.dir_songs == self.dir_songs,
                    this.all_files == self.all_files,
                    files == views(this.all_files@),
                    dir == this.dir_songs@,
                decreases sorted.len() - k,
            {
                let ghost before = this.match_set@;
                this.match_set.push(sorted[k].clone());
                assert(views(this.match_set@) =~= views(before).push(sorted@[k as int]@));
                assert(views(this.match_set@) =~= start + views(sorted@).take(k + 1));
                k += 1;
            }
            assert(views(sorted@).take(k as int) =~= views(sorted@));
            Ok(this)
        } else {
            let path = join_path(this.dir_songs.as_str(), glob);
            let exists = path_exists(path.as_str());
            this.add_file(path, exists)
        }
    }

    /// Selects the file at `path`, of which `exists` tells whether it is
    /// there; fails when it is not.
    pub fn add_file(self, path: String, exists: bool) -> (r: Result<InputSet, InputError>)
        ensures
            exists ==> (r matches Ok(s) && s.dir_songs == self.dir_songs && s.all_files
                == self.all_files && views(s.match_set@) == views(self.match_set@).push(path@)),
            !exists ==> (r matches Err(InputError::FileNotFound(p)) && p@ == path@),
    {
        if !exists {
            return Err(InputError::FileNotFound(path));
        }
        let mut this = self;
        let ghost before = this.match_set@;
        let ghost pv = path@;
        this.match_set.push(path);
        assert(views(this.match_set@) =~= views(before).push(pv));
        Ok(this)
    }

    /// The selected files, in order.
    pub fn finalize(self) -> (r: Vec<String>)
        ensures
            r@ == self.match_set@,
    {
        self.match_set
    }
}

} // verus!
