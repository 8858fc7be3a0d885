use bard_tex::error::TexError;
use bard_tex::job::{TempResource, RenderAction, RenderEvent, RenderPhase, TexRender, TexRenderJob, KEEP_ALL, KEEP_NONE, KEEP_TEX_ONLY};
use bard_tex::reorder::ReorderError;
use bard_tex::tex::{TexConfig, TexDistro};

fn job(keep: u8, key: Option<&str>, reruns: u32) -> TexRenderJob {
    TexRenderJob::new(
        "/out/book.tex".to_string(),
        "/out/.book-tmp".to_string(),
        "/out/book.pdf".to_string(),
        keep,
        key.map(|k| k.to_string()),
        reruns,
    )
}

fn config() -> TexConfig {
    TexConfig::parse("texlive:xelatex").unwrap()
}

#[test]
fn new_job_sets_retention() {
    let j = job(KEEP_NONE, None, 0);
    assert!(j.tex_file.remove && j.tmp_dir.remove);
    let j = job(KEEP_TEX_ONLY, None, 0);
    assert!(!j.tex_file.remove && j.tmp_dir.remove);
    let j = job(KEEP_ALL, None, 0);
    assert!(!j.tex_file.remove && !j.tmp_dir.remove);
    assert_eq!(j.tex_file.path, "/out/book.tex");
    assert_eq!(j.pdf_file, "/out/book.pdf");
}

#[test]
fn disabled_backend_keeps_source_and_produces_nothing() {
    let mut r = TexRender::new(TexConfig::with_distro(TexDistro::NoEngine), job(KEEP_NONE, None, 0));
    match r.advance(RenderEvent::Start) {
        RenderAction::Finished(Ok(())) => {}
        _ => panic!("expected an immediate success"),
    }
    assert_eq!(r.phase(), RenderPhase::Done);
    assert!(!r.job().tex_file.remove);
    assert!(r.job().tmp_dir.remove);
}

#[test]
fn reorder_runs_before_each_rerun() {
    let mut r = TexRender::new(config(), job(KEEP_NONE, Some("key(.*)"), 2));
    let mut ev = RenderEvent::Start;
    let mut reorders = 0;
    let mut compiles = 0;
    loop {
        match r.advance(ev) {
            RenderAction::Compile { program, args, cwd, status } => {
                compiles += 1;
                assert_eq!(program, "xelatex");
                assert_eq!(status, "xelatex");
                assert_eq!(cwd.as_deref(), Some("/out"));
                assert_eq!(args.last().map(|s| s.as_str()), Some("/out/book.tex"));
                ev = RenderEvent::Compiled;
            }
            RenderAction::Reorder { path, key } => {
                reorders += 1;
                assert_eq!(path, "/out/.book-tmp/book.toc");
                assert_eq!(key, "key(.*)");
                ev = RenderEvent::Reordered;
            }
            RenderAction::MoveArtifact { from, to } => {
                assert_eq!(from, "/out/.book-tmp/book.pdf");
                assert_eq!(to, "/out/book.pdf");
                ev = RenderEvent::Moved(true);
            }
            RenderAction::Finished(res) => {
                assert!(res.is_ok());
                break;
            }
        }
    }
    assert_eq!(reorders, 2);
    assert_eq!(compiles, 3);
}

#[test]
fn no_key_means_no_reorder() {
    let mut r = TexRender::new(config(), job(KEEP_NONE, None, 2));
    let mut ev = RenderEvent::Start;
    let mut compiles = 0;
    loop {
        match r.advance(ev) {
            RenderAction::Compile { .. } => {
                compiles += 1;
                ev = RenderEvent::Compiled;
            }
            RenderAction::Reorder { .. } => panic!("no key, no reorder"),
            RenderAction::MoveArtifact { .. } => ev = RenderEvent::Moved(true),
            RenderAction::Finished(res) => {
                assert!(res.is_ok());
                break;
            }
        }
    }
    assert_eq!(compiles, 3);
}

#[test]
fn failed_compile_carries_transcript() {
    let mut r = TexRender::new(config(), job(KEEP_NONE, Some("k(.)"), 1));
    assert!(matches!(r.advance(RenderEvent::Start), RenderAction::Compile { .. }));
    let transcript = vec![b"! Undefined control sequence.\n".to_vec(), b"l.3 \\foo\n".to_vec()];
    match r.advance(RenderEvent::CompileFailed(Some(1), transcript.clone())) {
        RenderAction::Finished(Err(TexError::CompileFailed(code, out))) => {
            assert_eq!(code, Some(1));
            assert_eq!(out, transcript);
        }
        _ => panic!("expected a compile failure"),
    }
    assert_eq!(r.phase(), RenderPhase::Done);
    let j = r.into_job();
    assert!(j.tex_file.remove && j.tmp_dir.remove);
}

#[test]
fn missing_artifact_is_its_own_error() {
    let mut r = TexRender::new(config(), job(KEEP_ALL, None, 0));
    assert!(matches!(r.advance(RenderEvent::Start), RenderAction::Compile { .. }));
    assert!(matches!(r.advance(RenderEvent::Compiled), RenderAction::MoveArtifact { .. }));
    match r.advance(RenderEvent::Moved(false)) {
        RenderAction::Finished(Err(TexError::ArtifactNotProduced(d))) => assert_eq!(d, "/out/book.pdf"),
        _ => panic!("expected a missing artifact"),
    }
    let j = r.into_job();
    assert!(!j.tex_file.remove && !j.tmp_dir.remove);
}

#[test]
fn reorder_failure_and_interrupt_end_the_job() {
    let mut r = TexRender::new(config(), job(KEEP_NONE, Some("nogroup"), 1));
    r.advance(RenderEvent::Start);
    assert!(matches!(r.advance(RenderEvent::Compiled), RenderAction::Reorder { .. }));
    match r.advance(RenderEvent::ReorderFailed(ReorderError::MissingCaptureGroup("nogroup".to_string()))) {
        RenderAction::Finished(Err(TexError::Reorder(e))) => {
            assert_eq!(e, ReorderError::MissingCaptureGroup("nogroup".to_string()))
        }
        _ => panic!("expected a reorder failure"),
    }

    let mut r = TexRender::new(config(), job(KEEP_NONE, None, 3));
    r.advance(RenderEvent::Start);
    assert!(matches!(
        r.advance(RenderEvent::Interrupted),
        RenderAction::Finished(Err(TexError::Interrupted))
    ));
}

#[test]
fn tectonic_compile_action() {
    let mut r = TexRender::new(TexConfig::parse("tectonic:tectonic").unwrap(), job(KEEP_NONE, None, 0));
    match r.advance(RenderEvent::Start) {
        RenderAction::Compile { args, .. } => {
            assert!(args.contains(&"search-path=/out/.book-tmp".to_string()))
        }
        _ => panic!("expected a compile"),
    }
}

#[test]
fn temp_resources_know_their_kind_and_siblings() {
    let f = TempResource::new_file("/w/song book.tex".to_string(), true);
    assert!(!f.is_dir && f.remove);
    assert_eq!(f.file_stem().as_deref(), Some("song book"));
    let mut d = TempResource::new_dir("/w/.tmp".to_string(), true);
    assert!(d.is_dir);
    assert_eq!(d.join_stem("song book", ".log"), "/w/.tmp/song book.log");
    d.set_remove(false);
    assert!(!d.remove && d.is_dir);
    assert_eq!(TempResource::new_file("/".to_string(), false).file_stem(), None);
}

#[test]
fn source_without_stem_cannot_produce_output() {
    let j = TexRenderJob::new("/".to_string(), "/t".to_string(), "/out/x.pdf".to_string(), KEEP_NONE, None, 0);
    let mut r = TexRender::new(config(), j);
    match r.advance(RenderEvent::Start) {
        RenderAction::Finished(Err(TexError::ArtifactNotProduced(d))) => assert_eq!(d, "/out/x.pdf"),
        _ => panic!("expected a missing artifact"),
    }
}

#[test]
fn compiler_that_cannot_start_ends_the_job() {
    let mut r = TexRender::new(config(), job(KEEP_NONE, None, 0));
    r.advance(RenderEvent::Start);
    match r.advance(RenderEvent::NotRun("xelatex".to_string())) {
        RenderAction::Finished(Err(TexError::CompilerNotRun(p))) => assert_eq!(p, "xelatex"),
        _ => panic!("expected a compiler that did not run"),
    }
}
