use bard_tex::error::TexError;
use bard_tex::resolve::{conclude_resolution, next_probe, plan_resolution, ConfigOrigin};
use bard_tex::tex::{TexConfig, TexDistro};

#[test]
fn unknown_env_kind_fails_before_probing() {
    let settings = TexConfig::parse("tectonic").unwrap();
    match plan_resolution(Some("lualatex"), Some(&settings), None) {
        Err(TexError::UnknownDistro(m)) => assert!(m.contains("'lualatex'")),
        _ => panic!("expected an unknown kind"),
    }
}

#[test]
fn env_override_wins_over_settings_and_detection() {
    let settings = TexConfig::parse("tectonic").unwrap();
    let plan = plan_resolution(Some("texlive:/no/such/xelatex"), Some(&settings), Some("/bin/bard"))
        .unwrap();
    assert_eq!(plan.origin, ConfigOrigin::Environment);
    assert_eq!(plan.candidates.len(), 1);
    assert_eq!(plan.candidates[0].distro, TexDistro::TexLive);
    assert_eq!(plan.candidates[0].program.as_deref(), Some("/no/such/xelatex"));

    let failed = conclude_resolution(plan, &vec![false]);
    match failed {
        Err(TexError::ProbeFailed(m)) => assert_eq!(m, "texlive:/no/such/xelatex"),
        _ => panic!("expected a failed probe"),
    }

    let plan = plan_resolution(Some("texlive:/usr/bin/xelatex"), Some(&settings), None).unwrap();
    let chosen = conclude_resolution(plan, &vec![true]).unwrap();
    assert_eq!(chosen.program.as_deref(), Some("/usr/bin/xelatex"));
}

#[test]
fn settings_come_second() {
    let settings = TexConfig::parse("tectonic:tt").unwrap();
    let plan = plan_resolution(None, Some(&settings), Some("/bin/bard")).unwrap();
    assert_eq!(plan.origin, ConfigOrigin::ProjectFile);
    assert_eq!(plan.candidates[0].to_text(), "tectonic:tt");
}

#[test]
fn embedded_engine_needs_no_probe() {
    let plan = plan_resolution(None, None, Some("/bin/bard")).unwrap();
    assert_eq!(plan.origin, ConfigOrigin::Embedded);
    assert_eq!(plan.candidates[0].distro, TexDistro::TectonicEmbedded);
    assert_eq!(plan.candidates[0].program.as_deref(), Some("/bin/bard"));
}

#[test]
fn detection_takes_first_answering_engine() {
    let plan = plan_resolution(None, None, None).unwrap();
    assert_eq!(plan.origin, ConfigOrigin::Detected);
    let kinds: Vec<TexDistro> = plan.candidates.iter().map(|c| c.distro).collect();
    assert_eq!(kinds, vec![TexDistro::TexLive, TexDistro::Tectonic]);
    let chosen = conclude_resolution(plan, &vec![false, true]).unwrap();
    assert_eq!(chosen.distro, TexDistro::Tectonic);

    let plan = plan_resolution(None, None, None).unwrap();
    match conclude_resolution(plan, &vec![false, false]) {
        Err(TexError::NoBackend) => {}
        _ => panic!("expected no backend"),
    }
}

#[test]
fn probing_stops_at_first_answer() {
    let plan = plan_resolution(None, None, None).unwrap();
    assert_eq!(next_probe(&plan, &vec![]), Some(0));
    assert_eq!(next_probe(&plan, &vec![false]), Some(1));
    assert_eq!(next_probe(&plan, &vec![true]), None);
    assert_eq!(next_probe(&plan, &vec![false, false]), None);
}

#[test]
fn error_messages() {
    assert_eq!(TexError::NoBackend.message(), "No TeX distribution found.");
    assert_eq!(TexError::Interrupted.message(), "Interrupted.");
    assert_eq!(TexError::ProbeFailed("texlive:x".to_string()).message(), "Error using TeX distribution 'texlive:x'.");
    assert_eq!(TexError::CompilerNotRun("xelatex".to_string()).message(), "Could not run program 'xelatex'.");
    assert_eq!(TexError::CompileFailed(Some(1), vec![]).message(), "The TeX compiler failed.");
    assert_eq!(TexError::ArtifactNotProduced("/o.pdf".to_string()).message(), "Could not move to output file '/o.pdf'.");
    assert_eq!(TexError::UnknownDistro("m".to_string()).message(), "m");
}
