//! Output and build options, and what the verbosity level decides about a
//! child process's output.

use vstd::prelude::*;

verus! {

/// Verbosity level: print nothing.
pub const QUIET: u8 = 0;

/// Verbosity level: status lines, and one line of a child's output at a
/// time.
pub const NORMAL: u8 = 1;

/// Verbosity level: every line of a child's output, and its command line.
pub const VERBOSE: u8 = 2;

/// Options of the standard streams.
#[derive(Clone, Copy, Debug, Default)]
pub struct StdioOpts {
    /// Be more verbose.
    pub verbose: bool,
    /// Suppress output.
    pub quiet: bool,
    /// Whether to use colored output; detected when not set.
    pub color: Option<bool>,
}

impl StdioOpts {
    /// The verbosity level: `NORMAL` by default, `VERBOSE` or `QUIET` with
    /// one of the two flags, and `NORMAL` again with both.
    pub fn verbosity(&self) -> (r: u8)
        ensures
            r == if self.quiet == self.verbose {
                NORMAL
            } else if self.verbose {
                VERBOSE
            } else {
                QUIET
            },
    {
        match (self.quiet, self.verbose) {
            (false, false) => NORMAL,
            (false, true) => VERBOSE,
            (true, false) => QUIET,
            (true, true) => NORMAL,
        }
    }
}

/// Options of a build.
#[derive(Clone, Copy, Debug, Default)]
pub struct MakeOpts {
    /// Run no post-processing step (TeX, scripts).
    pub no_postprocess: bool,
    /// Retention level of intermediate files.
    pub keep: u8,
    pub stdio: StdioOpts,
}

impl From<StdioOpts> for MakeOpts {
    fn from(stdio: StdioOpts) -> MakeOpts {
        MakeOpts { no_postprocess: false, keep: 0, stdio }
    }
}

impl vstd::std_specs::convert::FromSpecImpl<StdioOpts> for MakeOpts {
    open spec fn obeys_from_spec() -> bool {
        true
    }

    open spec fn from_spec(stdio: StdioOpts) -> MakeOpts {
        MakeOpts { no_postprocess: false, keep: 0, stdio }
    }
}

/// The utility commands: copying a file, and reordering the lines of a
/// file in place.
pub enum UtilCmd {
    Copy { src: String, dest: String },
    SortLines { regex: String, file: String },
}

/// How a child's output lines are shown while it runs.
#[derive(Clone, Copy, Debug, PartialEq, Eq, Structural)]
pub enum StreamMode {
    /// Not at all; they are only collected.
    Hidden,
    /// On one status line, each line replacing the one before.
    Overwrite,
    /// Each line as it comes.
    Passthrough,
}

/// How output is shown at a verbosity level.
pub fn stream_mode(verbosity: u8) -> (r: StreamMode)
    ensures
        r == if verbosity == QUIET {
            StreamMode::Hidden
        } else if verbosity == NORMAL {
            StreamMode::Overwrite
        } else {
            StreamMode::Passthrough
        },
{
    if verbosity == QUIET {
        StreamMode::Hidden
    } else if verbosity == NORMAL {
        StreamMode::Overwrite
    } else {
        StreamMode::Passthrough
    }
}

/// Whether the command line is shown before a child runs.
pub fn echo_command(verbosity: u8) -> (r: bool)
    ensures
        r == (verbosity >= VERBOSE),
{
    verbosity >= VERBOSE
}

/// Whether the command line and the collected output are shown again after
/// a child finished: only after a failure, and only at the level where its
/// lines were not left on screen.
pub fn replay_after(verbosity: u8, success: bool) -> (r: bool)
    ensures
        r == (!success && verbosity == NORMAL),
{
    !success && verbosity == NORMAL
}

/// The lines of a child's merged output, in the order they arrived.
pub struct Transcript {
    lines: Vec<Vec<u8>>,
}

impl View for Transcript {
    type V = Seq<Seq<u8>>;

    closed spec fn view(&self) -> Seq<Seq<u8>> {
        self.lines@.map_values(|l: Vec<u8>| l@)
    }
}

impl Transcript {
    /// An empty transcript.
    pub fn new() -> (r: Transcript)
        ensures
            r@ == Seq::<Seq<u8>>::empty(),
    {
        let r = Transcript { lines: Vec::new() };
        assert(r@ =~= Seq::<Seq<u8>>::empty());
        r
    }

    /// Appends the line that arrived last.
    pub fn push(&mut self, line: Vec<u8>)
        ensures
            final(self)@ == old(self)@.push(line@),
    {
        self.lines.push(line);
        assert(self@ =~= old(self)@.push(line@));
    }

    /// The number of lines.
    pub fn len(&self) -> (r: usize)
        ensures
            r == self@.len(),
    {
        self.lines.len()
    }

    /// The lines, in the order they arrived.
    pub fn into_lines(self) -> (r: Vec<Vec<u8>>)
        ensures
            r@.map_values(|l: Vec<u8>| l@) == self@,
    {
        self.lines
    }
}

} // verus!
