//! TeX backends: their names, how a backend is configured, and how each one
//! is invoked.

use vstd::prelude::*;
use crate::error::TexError;
use crate::text::views;

verus! {

/// A family of TeX engines, each with its own way of being invoked.
#[derive(Clone, Copy, Debug, PartialEq, Eq, Structural)]
pub enum TexDistro {
    TexLive,
    Tectonic,
    TectonicEmbedded,
    NoEngine,
}

/// `c` is `d`, or the upper-case ASCII form of the lower-case letter `d`.
pub open spec fn char_eq_ci(c: char, d: char) -> bool {
    c == d || (65 <= c as u32 <= 90 && (c as u32) + 32 == d as u32)
}

/// `s` spells `lower` up to the case of ASCII letters (`lower` being in
/// lower case).
pub open spec fn eq_ci(s: Seq<char>, lower: Seq<char>) -> bool {
    s.len() == lower.len() && forall|i: int| 0 <= i < s.len() ==> char_eq_ci(#[trigger] s[i], lower[i])
}

/// Compares `s` with the lower-case `lower`, ignoring the case of ASCII
/// letters.
pub fn eq_ignore_ascii_case(s: &str, lower: &str) -> (r: bool)
    ensures
        r == eq_ci(s@, lower@),
{
    let n = s.unicode_len();
    if n != lower.unicode_len() {
        return false;
    }
    let mut i: usize = 0;
    while i < n
        invariant
            n == s@.len() == lower@.len(),
            i <= n,
            forall|j: int| 0 <= j < i ==> char_eq_ci(#[trigger] s@[j], lower@[j]),
        decreases n - i,
    {
        let c = s.get_char(i);
        let d = lower.get_char(i);
        let cu = c as u32;
        let du = d as u32;
        if !(c == d || (65 <= cu && cu <= 90 && cu + 32 == du)) {
            return false;
        }
        i += 1;
    }
    true
}

/// The name of each backend kind, in lower case.
pub open spec fn distro_name(d: TexDistro) -> Seq<char> {
    match d {
        TexDistro::TexLive => "texlive"@,
        TexDistro::Tectonic => "tectonic"@,
        TexDistro::TectonicEmbedded => "tectonicembedded"@,
        TexDistro::NoEngine => "none"@,
    }
}

/// The backend kind that `name` names, in any case of its ASCII letters.
pub open spec fn distro_named(name: Seq<char>) -> Option<TexDistro> {
    if eq_ci(name, "texlive"@) {
        Some(TexDistro::TexLive)
    } else if eq_ci(name, "tectonic"@) {
        Some(TexDistro::Tectonic)
    } else if eq_ci(name, "tectonicembedded"@) {
        Some(TexDistro::TectonicEmbedded)
    } else if eq_ci(name, "none"@) {
        Some(TexDistro::NoEngine)
    } else {
        None
    }
}

/// The program that a backend kind runs when none is configured.
pub open spec fn default_program_of(d: TexDistro) -> Option<Seq<char>> {
    match d {
        TexDistro::TexLive => Some("xelatex"@),
        TexDistro::Tectonic => Some("tectonic"@),
        _ => None,
    }
}

impl TexDistro {
    /// The lower-case name of the kind.
    pub fn name(&self) -> (r: &'static str)
        ensures
            r@ == distro_name(*self),
    {
        match self {
            TexDistro::TexLive => "texlive",
            TexDistro::Tectonic => "tectonic",
            TexDistro::TectonicEmbedded => "tectonicembedded",
            TexDistro::NoEngine => "none",
        }
    }

    /// Reads a kind from its name, ignoring the case of ASCII letters.
    pub fn from_name(name: &str) -> (r: Option<TexDistro>)
        ensures
            r == distro_named(name@),
    {
        if eq_ignore_ascii_case(name, "texlive") {
            Some(TexDistro::TexLive)
        } else if eq_ignore_ascii_case(name, "tectonic") {
            Some(TexDistro::Tectonic)
        } else if eq_ignore_ascii_case(name, "tectonicembedded") {
            Some(TexDistro::TectonicEmbedded)
        } else if eq_ignore_ascii_case(name, "none") {
            Some(TexDistro::NoEngine)
        } else {
            None
        }
    }

    /// The program run when none is configured.
    pub fn default_program(&self) -> (r: Option<String>)
        ensures
            match (r, default_program_of(*self)) {
                (Some(p), Some(q)) => p@ == q,
                (None, None) => true,
                _ => false,
            },
    {
        match self {
            TexDistro::TexLive => Some(String::from_str("xelatex")),
            TexDistro::Tectonic => Some(String::from_str("tectonic")),
            _ => None,
        }
    }

    /// Whether this is the kind that typesets nothing.
    pub fn is_none(&self) -> (r: bool)
        ensures
            r == (*self == TexDistro::NoEngine),
    {
        match self {
            TexDistro::NoEngine => true,
            _ => false,
        }
    }
}


/// Index of the first `c` in `s`, or the length of `s` when there is none.
pub open spec fn find_char(s: Seq<char>, c: char) -> int
    decreases s.len(),
{
    if s.len() == 0 || s[0] == c {
        0
    } else {
        1 + find_char(s.drop_first(), c)
    }
}

proof fn lemma_find_char(s: Seq<char>, c: char, i: int)
    requires
        0 <= i <= s.len(),
        forall|j: int| 0 <= j < i ==> #[trigger] s[j] != c,
        i == s.len() || s[i] == c,
    ensures
        find_char(s, c) == i,
    decreases i,
{
    if i > 0 {
        let t = s.drop_first();
        assert forall|j: int| 0 <= j < i - 1 implies #[trigger] t[j] != c by {
            assert(t[j] == s[j + 1]);
        }
        if i < s.len() {
            assert(t[i - 1] == s[i]);
        }
        lemma_find_char(t, c, i - 1);
    }
}

/// The view of an optional string.
pub open spec fn opt_view(p: Option<String>) -> Option<Seq<char>> {
    match p {
        Some(s) => Some(s@),
        None => None,
    }
}

/// What `kind[:program]` configures: the kind named before the first colon
/// and the program after it, if there is a colon.
pub open spec fn parsed_config(s: Seq<char>) -> Option<(TexDistro, Option<Seq<char>>)> {
    let k = find_char(s, ':');
    match distro_named(s.take(k)) {
        Some(d) => Some(
            (
                d,
                if k < s.len() {
                    Some(s.skip(k + 1))
                } else {
                    None
                },
            ),
        ),
        None => None,
    }
}

/// A backend kind with the program to run, if one is set.
#[derive(Debug)]
pub struct TexConfig {
    pub distro: TexDistro,
    pub program: Option<String>,
}

/// The spelling `kind[:program]` of a configuration.
pub open spec fn config_text(distro: TexDistro, program: Option<Seq<char>>) -> Seq<char> {
    match program {
        Some(p) => distro_name(distro) + ":"@ + p,
        None => distro_name(distro),
    }
}

/// The text that lists the known kinds.
pub open spec fn unknown_distro_message(given: Seq<char>) -> Seq<char> {
    "Unexpected TeX distro type: '"@ + given
        + "', possible choices are: [\"texlive\", \"tectonic\", \"tectonicembedded\", \"none\"]."@
}

impl TexConfig {
    /// A configuration of `distro` with no program set.
    pub fn with_distro(distro: TexDistro) -> (r: TexConfig)
        ensures
            r.distro == distro,
            r.program is None,
    {
        TexConfig { distro, program: None }
    }

    /// Reads `kind[:program]`. The kind is matched ignoring the case of
    /// ASCII letters; everything after the first colon is the program.
    pub fn parse(input: &str) -> (r: Result<TexConfig, TexError>)
        ensures
            match (r, parsed_config(input@)) {
                (Ok(c), Some((d, p))) => c.distro == d && opt_view(c.program) == p,
                (Err(TexError::UnknownDistro(m)), None) => m@ == unknown_distro_message(
                    input@.take(find_char(input@, ':')),
                ),
                _ => false,
            },
    {
        let n = input.unicode_len();
        let mut i: usize = 0;
        while i < n && input.get_char(i) != ':'
            invariant
                n == input@.len(),
                i <= n,
                forall|j: int| 0 <= j < i ==> #[trigger] input@[j] != ':',
            decreases n - i,
        {
            i += 1;
        }
        proof {
            lemma_find_char(input@, ':', i as int);
        }
        let name = input.substring_char(0, i);
        match TexDistro::from_name(name) {
            Some(distro) => {
                let program = if i < n {
                    Some(input.substring_char(i + 1, n).to_string())
                } else {
                    None
                };
                Ok(TexConfig { distro, program })
            },
            None => {
                let mut m = String::from_str("Unexpected TeX distro type: '");
                m.append(name);
                m.append(
                    "', possible choices are: [\"texlive\", \"tectonic\", \"tectonicembedded\", \"none\"].",
                );
                Err(TexError::UnknownDistro(m))
            },
        }
    }

    /// The spelling `kind[:program]`.
    pub fn to_text(&self) -> (r: String)
        ensures
            r@ == config_text(self.distro, opt_view(self.program)),
    {
        let mut r = String::from_str(self.distro.name());
        match &self.program {
            Some(p) => {
                r.append(":");
                r.append(p.as_str());
            },
            None => {},
        }
        r
    }
}


/// The argument that makes a backend print its version, for the kinds that
/// are probed.
pub open spec fn version_flag_of(d: TexDistro) -> Option<Seq<char>> {
    match d {
        TexDistro::TexLive => Some("-version"@),
        TexDistro::Tectonic => Some("--version"@),
        _ => None,
    }
}

/// Whether a backend of this kind is an external program that is probed
/// before use.
pub open spec fn is_external(d: TexDistro) -> bool {
    d == TexDistro::TexLive || d == TexDistro::Tectonic
}

/// ASCII whitespace: space, tab, line feed, form feed, carriage return.
pub open spec fn is_ascii_ws(c: char) -> bool {
    c == ' ' || c == '\t' || c == '\n' || c == '\x0C' || c == '\r'
}

/// A version line shows that the program works when it holds something
/// other than ASCII whitespace.
pub open spec fn usable_version_line(line: Seq<char>) -> bool {
    exists|i: int| 0 <= i < line.len() && !is_ascii_ws(#[trigger] line[i])
}

/// Checks the first line that a probed program printed.
pub fn version_line_usable(line: &str) -> (r: bool)
    ensures
        r == usable_version_line(line@),
{
    let n = line.unicode_len();
    let mut i: usize = 0;
    while i < n
        invariant
            n == line@.len(),
            i <= n,
            forall|j: int| 0 <= j < i ==> is_ascii_ws(#[trigger] line@[j]),
        decreases n - i,
    {
        let c = line.get_char(i);
        if !(c == ' ' || c == '\t' || c == '\n' || c == '\x0C' || c == '\r') {
            return true;
        }
        i += 1;
    }
    false
}

/// How many times the probe polls a program before it stops waiting.
pub const PROBE_POLLS: u32 = 30;

/// What the probe does after one poll of the probed program.
#[derive(Clone, Copy, Debug, PartialEq, Eq, Structural)]
pub enum ProbeWait {
    /// Wait a poll interval and poll again.
    Sleep,
    /// The program failed: the probe fails.
    Fail,
    /// Stop waiting (ending the program if it still runs) and read its
    /// first output line.
    Stop,
}

/// The probe's decision after poll number `poll` (from 0), which found the
/// program exited with success (`Some(true)`), exited with failure
/// (`Some(false)`), or still running (`None`). A program that still runs
/// after `PROBE_POLLS` polls is stopped.
pub fn probe_wait(poll: u32, exited: Option<bool>) -> (r: ProbeWait)
    ensures
        r == match exited {
            Some(true) => ProbeWait::Stop,
            Some(false) => ProbeWait::Fail,
            None => if poll + 1 < PROBE_POLLS {
                ProbeWait::Sleep
            } else {
                ProbeWait::Stop
            },
        },
{
    match exited {
        Some(true) => ProbeWait::Stop,
        Some(false) => ProbeWait::Fail,
        None => if poll < PROBE_POLLS - 1 {
            ProbeWait::Sleep
        } else {
            ProbeWait::Stop
        },
    }
}

/// A program to run with one argument.
pub struct ProbeCommand {
    pub program: String,
    pub arg: String,
}

/// The arguments that compile `tex_file` into `tmp_dir` with a backend.
pub open spec fn render_args_of(d: TexDistro, tmp_dir: Seq<char>, tex_file: Seq<char>) -> Seq<
    Seq<char>,
> {
    let head = match d {
        TexDistro::TexLive => seq!["-interaction=nonstopmode"@, "-output-directory"@, tmp_dir],
        TexDistro::Tectonic => seq![
            "-k"@,
            "-r"@,
            "0"@,
            "-o"@,
            tmp_dir,
            "-Z"@,
            "search-path="@ + tmp_dir,
        ],
        _ => seq!["tectonic"@, "-o"@, tmp_dir],
    };
    head + seq!["--"@, tex_file]
}

/// A configuration that can be run: a kind that typesets nothing, or one
/// with its program set.
pub open spec fn config_ready(c: TexConfig) -> bool {
    c.distro == TexDistro::NoEngine || c.program is Some
}

fn push_str(v: &mut Vec<String>, s: &str)
    ensures
        final(v)@.len() == old(v)@.len() + 1,
        forall|i: int| 0 <= i < old(v)@.len() ==> final(v)@[i] == old(v)@[i],
        final(v)@[old(v)@.len() as int]@ == s@,
{
    v.push(s.to_string());
}

impl TexConfig {
    /// Prepares the probe of an external backend: sets its default program
    /// when none is set and gives the version query to run. Gives `None`
    /// for the kinds that are not probed, and leaves them as they are.
    pub fn probe_command(&mut self) -> (r: Option<ProbeCommand>)
        ensures
            final(self).distro == old(self).distro,
            opt_view(final(self).program) == if is_external(old(self).distro)
                && old(self).program is None {
                default_program_of(old(self).distro)
            } else {
                opt_view(old(self).program)
            },
            r is Some <==> is_external(old(self).distro),
            r matches Some(c) ==> Some(c.program@) == opt_view(final(self).program) && Some(c.arg@)
                == version_flag_of(old(self).distro),
    {
        let arg = match self.distro {
            TexDistro::TexLive => "-version",
            TexDistro::Tectonic => "--version",
            _ => return None,
        };
        if self.program.is_none() {
            self.program = self.distro.default_program();
        }
        match &self.program {
            Some(p) => Some(ProbeCommand { program: p.clone(), arg: arg.to_string() }),
            None => None,
        }
    }

    /// The arguments that compile `tex_file` into `tmp_dir`.
    pub fn render_args(&self, tmp_dir: &str, tex_file: &str) -> (r: Vec<String>)
        requires
            self.distro != TexDistro::NoEngine,
        ensures
            views(r@) == render_args_of(self.distro, tmp_dir@, tex_file@),
    {
        let mut v: Vec<String> = Vec::new();
        match self.distro {
            TexDistro::TexLive => {
                push_str(&mut v, "-interaction=nonstopmode");
                push_str(&mut v, "-output-directory");
                push_str(&mut v, tmp_dir);
            },
            TexDistro::Tectonic => {
                push_str(&mut v, "-k");
                push_str(&mut v, "-r");
                push_str(&mut v, "0");
                push_str(&mut v, "-o");
                push_str(&mut v, tmp_dir);
                push_str(&mut v, "-Z");
                let mut sp = String::from_str("search-path=");
                sp.append(tmp_dir);
                push_str(&mut v, sp.as_str());
            },
            _ => {
                push_str(&mut v, "tectonic");
                push_str(&mut v, "-o");
                push_str(&mut v, tmp_dir);
            },
        }
        push_str(&mut v, "--");
        push_str(&mut v, tex_file);
        assert(views(v@) =~= render_args_of(self.distro, tmp_dir@, tex_file@));
        v
    }

    /// The label shown before the compiler's latest output line.
    pub fn program_status(&self) -> (r: String)
        requires
            self.distro != TexDistro::NoEngine,
            config_ready(*self),
        ensures
            r@ == if is_external(self.distro) {
                self.program->0@
            } else {
                "tectonic"@
            },
    {
        match (&self.distro, &self.program) {
            (TexDistro::TexLive, Some(p)) | (TexDistro::Tectonic, Some(p)) => p.clone(),
            _ => String::from_str("tectonic"),
        }
    }
}

} // verus!
