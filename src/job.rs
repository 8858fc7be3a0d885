//! One render job: its temporary files, and the steps that compile its
//! source into the destination document.
//!
//! The job is a state machine. The caller performs each action it hands
//! out (runs the compiler, reorders the index file, moves the document)
//! and reports back what happened.

use vstd::prelude::*;
use crate::error::TexError;
use crate::paths::{file_stem, file_stem_of, join_path, joined_path, parent, parent_of};
use crate::reorder::ReorderError;
use crate::tex::{config_ready, is_external, opt_view, render_args_of, TexConfig, TexDistro};
use crate::text::views;

verus! {

/// Retention level: delete every intermediate file.
pub const KEEP_NONE: u8 = 0;

/// Retention level: keep the generated TeX source.
pub const KEEP_TEX_ONLY: u8 = 1;

/// Retention level: keep the TeX source and the build directory.
pub const KEEP_ALL: u8 = 2;

/// A file or directory that is deleted when released, unless `remove` is
/// off.
pub struct TempResource {
    pub path: String,
    pub is_dir: bool,
    pub remove: bool,
}

impl TempResource {
    /// A file at `path`, deleted on release when `remove` holds.
    pub fn new_file(path: String, remove: bool) -> (r: TempResource)
        ensures
            r.path@ == path@,
            !r.is_dir,
            r.remove == remove,
    {
        TempResource { path, is_dir: false, remove }
    }

    /// A directory at `path`, deleted with its contents on release when
    /// `remove` holds.
    pub fn new_dir(path: String, remove: bool) -> (r: TempResource)
        ensures
            r.path@ == path@,
            r.is_dir,
            r.remove == remove,
    {
        TempResource { path, is_dir: true, remove }
    }

    /// The file stem of the path.
    pub fn file_stem(&self) -> (r: Option<String>)
        ensures
            opt_view(r) == file_stem_of(self.path@),
    {
        file_stem(self.path.as_str())
    }

    /// The path, taken as a directory, joined with the file name `stem`
    /// followed by `ext`.
    pub fn join_stem(&self, stem: &str, ext: &str) -> (r: String)
        ensures
            r@ == joined_path(self.path@, stem@ + ext@),
    {
        let mut name = stem.to_string();
        name.append(ext);
        join_path(self.path.as_str(), name.as_str())
    }

    /// Turns deletion on release on or off.
    pub fn set_remove(&mut self, remove: bool)
        ensures
            final(self).path@ == old(self).path@,
            final(self).is_dir == old(self).is_dir,
            final(self).remove == remove,
    {
        self.remove = remove;
    }
}

/// What one render job compiles, where it builds, and where the document
/// goes.
pub struct TexRenderJob {
    pub tex_file: TempResource,
    pub tmp_dir: TempResource,
    pub pdf_file: String,
    pub toc_sort_key: Option<String>,
    pub reruns: u32,
}

impl TexRenderJob {
    /// A job that compiles `tex_file` in the build directory `tmp_dir` into
    /// `pdf_file`, with `reruns` passes after the first. The source is kept
    /// from retention level `KEEP_TEX_ONLY` up, the build directory at
    /// `KEEP_ALL`.
    pub fn new(
        tex_file: String,
        tmp_dir: String,
        pdf_file: String,
        keep: u8,
        toc_sort_key: Option<String>,
        reruns: u32,
    ) -> (r: TexRenderJob)
        ensures
            r.tex_file.path@ == tex_file@,
            !r.tex_file.is_dir,
            r.tmp_dir.is_dir,
            r.tex_file.remove == (keep < KEEP_TEX_ONLY),
            r.tmp_dir.path@ == tmp_dir@,
            r.tmp_dir.remove == (keep < KEEP_ALL),
            r.pdf_file@ == pdf_file@,
            opt_view(r.toc_sort_key) == opt_view(toc_sort_key),
            r.reruns == reruns,
    {
        TexRenderJob {
            tex_file: TempResource::new_file(tex_file, keep < KEEP_TEX_ONLY),
            tmp_dir: TempResource::new_dir(tmp_dir, keep < KEEP_ALL),
            pdf_file,
            toc_sort_key,
            reruns,
        }
    }
}

/// Where a job stands.
#[derive(Clone, Copy, Debug, PartialEq, Eq, Structural)]
pub enum RenderPhase {
    /// Not started.
    Created,
    /// Compiler pass `n` (from 0) runs.
    Compiling(u32),
    /// The index file is reordered before compiler pass `n`.
    Reordering(u32),
    /// The document is moved to its destination.
    Finalizing,
    /// Finished, well or not.
    Done,
}

/// What the caller reports.
pub enum RenderEvent {
    /// Start the job.
    Start,
    /// The compiler exited with success.
    Compiled,
    /// The compiler failed: its exit code, if it exited, and its output.
    CompileFailed(Option<i32>, Vec<Vec<u8>>),
    /// The compiler program, named here, could not be started.
    NotRun(String),
    /// The index file was reordered, or did not exist.
    Reordered,
    /// The index file could not be reordered.
    ReorderFailed(ReorderError),
    /// The document was moved (`true`) or could not be.
    Moved(bool),
    /// A wait was cancelled.
    Interrupted,
}

/// What the caller is to do next.
pub enum RenderAction {
    /// Run `program` with `args` in `cwd` (the caller's own directory when
    /// none), showing `status` before its output.
    Compile { program: String, args: Vec<String>, cwd: Option<String>, status: String },
    /// Reorder the file at `path` with the key pattern `key`; skip it if the
    /// file does not exist.
    Reorder { path: String, key: String },
    /// Move the file at `from` to `to`.
    MoveArtifact { from: String, to: String },
    /// The job is over, with this outcome.
    Finished(Result<(), TexError>),
}

/// The events that may come in each phase.
pub open spec fn event_fits(phase: RenderPhase, ev: RenderEvent) -> bool {
    match ev {
        RenderEvent::Interrupted => phase != RenderPhase::Done,
        RenderEvent::Start => phase == RenderPhase::Created,
        RenderEvent::Compiled | RenderEvent::CompileFailed(..) | RenderEvent::NotRun(_) => phase is Compiling,
        RenderEvent::Reordered | RenderEvent::ReorderFailed(_) => phase is Reordering,
        RenderEvent::Moved(_) => phase == RenderPhase::Finalizing,
    }
}

/// The phase that follows a successful compiler pass `n`.
pub open spec fn after_pass(n: u32, reruns: u32, has_key: bool) -> RenderPhase {
    if n < reruns {
        if has_key {
            RenderPhase::Reordering((n + 1) as u32)
        } else {
            RenderPhase::Compiling((n + 1) as u32)
        }
    } else {
        RenderPhase::Finalizing
    }
}

/// The phase that an event leads to.
pub open spec fn next_phase(
    phase: RenderPhase,
    ev: RenderEvent,
    disabled: bool,
    has_stem: bool,
    reruns: u32,
    has_key: bool,
) -> RenderPhase {
    match (phase, ev) {
        (RenderPhase::Created, RenderEvent::Start) => if disabled || !has_stem {
            RenderPhase::Done
        } else {
            RenderPhase::Compiling(0)
        },
        (RenderPhase::Compiling(n), RenderEvent::Compiled) => after_pass(n, reruns, has_key),
        (RenderPhase::Reordering(n), RenderEvent::Reordered) => RenderPhase::Compiling(n),
        _ => RenderPhase::Done,
    }
}

/// The phase reached from `phase` after `steps` more steps, when every
/// compiler pass and every reordering succeeds.
pub open spec fn phase_after(phase: RenderPhase, reruns: u32, has_key: bool, steps: nat) -> RenderPhase
    decreases steps,
{
    if steps == 0 {
        phase
    } else {
        match phase {
            RenderPhase::Compiling(_) => phase_after(
                next_phase(phase, RenderEvent::Compiled, false, true, reruns, has_key),
                reruns,
                has_key,
                (steps - 1) as nat,
            ),
            RenderPhase::Reordering(_) => phase_after(
                next_phase(phase, RenderEvent::Reordered, false, true, reruns, has_key),
                reruns,
                has_key,
                (steps - 1) as nat,
            ),
            _ => phase,
        }
    }
}

/// The number of reorderings met on the way from `phase` within `steps`
/// steps, when every step succeeds.
pub open spec fn reorders_after(phase: RenderPhase, reruns: u32, has_key: bool, steps: nat) -> nat
    decreases steps,
{
    if steps == 0 {
        0
    } else {
        match phase {
            RenderPhase::Compiling(_) => reorders_after(
                next_phase(phase, RenderEvent::Compiled, false, true, reruns, has_key),
                reruns,
                has_key,
                (steps - 1) as nat,
            ),
            RenderPhase::Reordering(_) => 1 + reorders_after(
                next_phase(phase, RenderEvent::Reordered, false, true, reruns, has_key),
                reruns,
                has_key,
                (steps - 1) as nat,
            ),
            _ => 0,
        }
    }
}

proof fn lemma_passes_from(n: u32, reruns: u32, has_key: bool)
    requires
        n <= reruns,
    ensures
        phase_after(
            RenderPhase::Compiling(n),
            reruns,
            has_key,
            (if has_key { 2 * (reruns - n) } else { reruns - n }) as nat + 1,
        ) == RenderPhase::Finalizing,
        reorders_after(
            RenderPhase::Compiling(n),
            reruns,
            has_key,
            (if has_key { 2 * (reruns - n) } else { reruns - n }) as nat + 1,
        ) == if has_key { (reruns - n) as nat } else { 0 },
    decreases reruns - n,
{
    let c = RenderPhase::Compiling(n);
    let steps: nat = (if has_key { 2 * (reruns - n) } else { reruns - n }) as nat + 1;
    if n < reruns {
        lemma_passes_from((n + 1) as u32, reruns, has_key);
        let next = RenderPhase::Compiling((n + 1) as u32);
        let rest: nat = (if has_key { 2 * (reruns - (n + 1)) } else { reruns - (n + 1) }) as nat + 1;
        if has_key {
            let r = RenderPhase::Reordering((n + 1) as u32);
            assert(phase_after(c, reruns, has_key, steps) == phase_after(r, reruns, has_key, (steps - 1) as nat));
            assert(phase_after(r, reruns, has_key, (steps - 1) as nat) == phase_after(next, reruns, has_key, rest));
            assert(reorders_after(c, reruns, has_key, steps) == reorders_after(r, reruns, has_key, (steps - 1) as nat));
            assert(reorders_after(r, reruns, has_key, (steps - 1) as nat) == 1 + reorders_after(next, reruns, has_key, rest));
        } else {
            assert(phase_after(c, reruns, has_key, steps) == phase_after(next, reruns, has_key, rest));
            assert(reorders_after(c, reruns, has_key, steps) == reorders_after(next, reruns, has_key, rest));
        }
    } else {
        assert(phase_after(RenderPhase::Finalizing, reruns, has_key, 0) == RenderPhase::Finalizing);
        assert(reorders_after(RenderPhase::Finalizing, reruns, has_key, 0) == 0);
    }
}

/// When every step succeeds, a job with `reruns` reruns reaches the move of
/// its document after `reruns + 1` compiler passes, with one reordering of
/// the index file before each rerun when it has a key, and none without.
pub proof fn lemma_reorder_before_each_rerun(reruns: u32, has_key: bool)
    ensures
        phase_after(
            RenderPhase::Compiling(0),
            reruns,
            has_key,
            (if has_key { 2 * reruns } else { reruns as int }) as nat + 1,
        ) == RenderPhase::Finalizing,
        reorders_after(
            RenderPhase::Compiling(0),
            reruns,
            has_key,
            (if has_key { 2 * reruns } else { reruns as int }) as nat + 1,
        ) == if has_key { reruns as nat } else { 0 },
{
    lemma_passes_from(0, reruns, has_key);
}

/// A job under way, with the backend that compiles it.
pub struct TexRender {
    config: TexConfig,
    job: TexRenderJob,
    phase: RenderPhase,
    stem: Option<String>,
}

impl TexRender {
    /// The backend.
    pub closed spec fn config(&self) -> TexConfig {
        self.config
    }

    /// The job.
    pub closed spec fn spec_job(&self) -> TexRenderJob {
        self.job
    }

    /// The phase.
    pub closed spec fn spec_phase(&self) -> RenderPhase {
        self.phase
    }

    /// The invariant: the backend can be run, and the stem is the source's.
    pub closed spec fn wf(&self) -> bool {
        &&& config_ready(self.config)
        &&& opt_view(self.stem) == file_stem_of(self.job.tex_file.path@)
        &&& (self.phase is Compiling || self.phase is Reordering || self.phase
            == RenderPhase::Finalizing) ==> self.stem is Some && self.config.distro
            != TexDistro::NoEngine
    }

    /// Whether the backend typesets nothing.
    pub open spec fn disabled(&self) -> bool {
        self.config().distro == TexDistro::NoEngine
    }

    /// The path of the file that the compiler writes next to the source's
    /// stem, with extension `ext`, in the build directory.
    pub open spec fn built_file(&self, ext: Seq<char>) -> Seq<char> {
        joined_path(
            self.spec_job().tmp_dir.path@,
            file_stem_of(self.spec_job().tex_file.path@)->0 + ext,
        )
    }

    /// Prepares `job` for rendering with `config`.
    pub fn new(config: TexConfig, job: TexRenderJob) -> (r: TexRender)
        requires
            config_ready(config),
        ensures
            r.wf(),
            r.config() == config,
            r.spec_job() == job,
            r.spec_phase() == RenderPhase::Created,
    {
        let stem = job.tex_file.file_stem();
        TexRender { config, job, phase: RenderPhase::Created, stem }
    }

    /// The phase.
    pub fn phase(&self) -> (r: RenderPhase)
        ensures
            r == self.spec_phase(),
    {
        self.phase
    }

    /// The job.
    pub fn job(&self) -> (r: &TexRenderJob)
        ensures
            *r == self.spec_job(),
    {
        &self.job
    }

    /// Gives the job back.
    pub fn into_job(self) -> (r: TexRenderJob)
        ensures
            r == self.spec_job(),
    {
        self.job
    }

    fn compile_action(&self) -> (r: RenderAction)
        requires
            self.wf(),
            !self.disabled(),
        ensures
            r matches RenderAction::Compile { program, args, cwd, status } && Some(program@)
                == opt_view(self.config().program) && views(args@) == render_args_of(
                self.config().distro,
                self.spec_job().tmp_dir.path@,
                self.spec_job().tex_file.path@,
            ) && opt_view(cwd) == parent_of(self.spec_job().pdf_file@) && status@ == if is_external(
                self.config().distro,
            ) {
                self.config().program->0@
            } else {
                "tectonic"@
            },
    {
        let args = self.config.render_args(
            self.job.tmp_dir.path.as_str(),
            self.job.tex_file.path.as_str(),
        );
        let status = self.config.program_status();
        let program = match &self.config.program {
            Some(p) => p.clone(),
            None => String::new(),
        };
        let cwd = parent(self.job.pdf_file.as_str());
        RenderAction::Compile { program, args, cwd, status }
    }

    fn built(&self, ext: &str) -> (r: String)
        requires
            self.wf(),
            self.stem is Some,
        ensures
            r@ == self.built_file(ext@),
    {
        match &self.stem {
            Some(s) => self.job.tmp_dir.join_stem(s.as_str(), ext),
            None => String::new(),
        }
    }

    /// Takes in what happened and says what to do next. A backend that
    /// typesets nothing finishes at once, keeps the source and produces no
    /// document. Otherwise the compiler runs once, then once more for each
    /// rerun, each rerun preceded by the reordering of the index file when
    /// the job has a key; then the document is moved to its destination.
    /// The first failure ends the job with that failure.
    pub fn advance(&mut self, ev: RenderEvent) -> (r: RenderAction)
        requires
            old(self).wf(),
            event_fits(old(self).spec_phase(), ev),
        ensures
            final(self).wf(),
            final(self).config() == old(self).config(),
            final(self).spec_phase() == next_phase(
                old(self).spec_phase(),
                ev,
                old(self).disabled(),
                file_stem_of(old(self).spec_job().tex_file.path@) is Some,
                old(self).spec_job().reruns,
                old(self).spec_job().toc_sort_key is Some,
            ),
            final(self).spec_job().tex_file.path@ == old(self).spec_job().tex_file.path@,
            final(self).spec_job().tex_file.is_dir == old(self).spec_job().tex_file.is_dir,
            final(self).spec_job().tex_file.remove == if old(self).disabled() && ev is Start {
                false
            } else {
                old(self).spec_job().tex_file.remove
            },
            final(self).spec_job().tmp_dir == old(self).spec_job().tmp_dir,
            final(self).spec_job().pdf_file == old(self).spec_job().pdf_file,
            final(self).spec_job().toc_sort_key == old(self).spec_job().toc_sort_key,
            final(self).spec_job().reruns == old(self).spec_job().reruns,
            final(self).spec_phase() is Compiling <==> r is Compile,
            final(self).spec_phase() is Reordering <==> r is Reorder,
            final(self).spec_phase() == RenderPhase::Finalizing <==> r is MoveArtifact,
            final(self).spec_phase() == RenderPhase::Done <==> r is Finished,
            r matches RenderAction::Compile { program, args, cwd, status } ==> Some(program@)
                == opt_view(old(self).config().program) && views(args@) == render_args_of(
                old(self).config().distro,
                old(self).spec_job().tmp_dir.path@,
                old(self).spec_job().tex_file.path@,
            ) && opt_view(cwd) == parent_of(old(self).spec_job().pdf_file@) && status@ == if is_external(
                old(self).config().distro,
            ) {
                old(self).config().program->0@
            } else {
                "tectonic"@
            },
            r matches RenderAction::Reorder { path, key } ==> path@ == old(self).built_file(".toc"@)
                && Some(key@) == opt_view(old(self).spec_job().toc_sort_key),
            r matches RenderAction::MoveArtifact { from, to } ==> from@ == old(self).built_file(
                ".pdf"@,
            ) && to@ == old(self).spec_job().pdf_file@,
            r matches RenderAction::Finished(res) ==> match ev {
                RenderEvent::Start => if old(self).disabled() {
                    res is Ok
                } else {
                    res matches Err(TexError::ArtifactNotProduced(d)) && d@
                        == old(self).spec_job().pdf_file@
                },
                RenderEvent::Compiled => false,
                RenderEvent::CompileFailed(code, out) => res matches Err(
                    TexError::CompileFailed(c, o),
                ) && c == code && o == out,
                RenderEvent::NotRun(p) => res matches Err(TexError::CompilerNotRun(q)) && q == p,
                RenderEvent::Reordered => false,
                RenderEvent::ReorderFailed(e) => res matches Err(TexError::Reorder(f)) && f == e,
                RenderEvent::Moved(ok) => if ok {
                    res is Ok
                } else {
                    res matches Err(TexError::ArtifactNotProduced(d)) && d@
                        == old(self).spec_job().pdf_file@
                },
                RenderEvent::Interrupted => res matches Err(TexError::Interrupted),
            },
    {
        match ev {
            RenderEvent::Interrupted => {
                self.phase = RenderPhase::Done;
                RenderAction::Finished(Err(TexError::Interrupted))
            },
            RenderEvent::Start => {
                if self.config.distro.is_none() {
                    self.job.tex_file.set_remove(false);
                    self.phase = RenderPhase::Done;
                    RenderAction::Finished(Ok(()))
                } else if self.stem.is_none() {
                    self.phase = RenderPhase::Done;
                    RenderAction::Finished(
                        Err(TexError::ArtifactNotProduced(self.job.pdf_file.clone())),
                    )
                } else {
                    self.phase = RenderPhase::Compiling(0);
                    self.compile_action()
                }
            },
            RenderEvent::Compiled => {
                let n = match self.phase {
                    RenderPhase::Compiling(n) => n,
                    _ => 0,
                };
                if n < self.job.reruns {
                    match &self.job.toc_sort_key {
                        Some(key) => {
                            let path = self.built(".toc");
                            self.phase = RenderPhase::Reordering(n + 1);
                            RenderAction::Reorder { path, key: key.clone() }
                        },
                        None => {
                            self.phase = RenderPhase::Compiling(n + 1);
                            self.compile_action()
                        },
                    }
                } else {
                    let from = self.built(".pdf");
                    self.phase = RenderPhase::Finalizing;
                    RenderAction::MoveArtifact { from, to: self.job.pdf_file.clone() }
                }
            },
            RenderEvent::CompileFailed(code, out) => {
                self.phase = RenderPhase::Done;
                RenderAction::Finished(Err(TexError::CompileFailed(code, out)))
            },
            RenderEvent::NotRun(p) => {
                self.phase = RenderPhase::Done;
                RenderAction::Finished(Err(TexError::CompilerNotRun(p)))
            },
            RenderEvent::Reordered => {
                let n = match self.phase {
                    RenderPhase::Reordering(n) => n,
                    _ => 0,
                };
                self.phase = RenderPhase::Compiling(n);
                self.compile_action()
            },
            RenderEvent::ReorderFailed(e) => {
                self.phase = RenderPhase::Done;
                RenderAction::Finished(Err(TexError::Reorder(e)))
            },
            RenderEvent::Moved(ok) => {
                self.phase = RenderPhase::Done;
                if ok {
                    RenderAction::Finished(Ok(()))
                } else {
                    RenderAction::Finished(
                        Err(TexError::ArtifactNotProduced(self.job.pdf_file.clone())),
                    )
                }
            },
        }
    }
}

} // verus!
