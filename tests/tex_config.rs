use bard_tex::error::TexError;
use bard_tex::tex::{probe_wait, version_line_usable, ProbeWait, TexConfig, TexDistro, PROBE_POLLS};

fn tex_config_parse(input: &str) -> Result<TexConfig, TexError> {
    TexConfig::parse(input)
}

#[test]
fn tex_config_parsing() {
    let config = tex_config_parse("texlive").unwrap();
    assert_eq!(config.distro, TexDistro::TexLive);
    assert_eq!(config.program, None);

    let config = tex_config_parse("tectonic").unwrap();
    assert_eq!(config.distro, TexDistro::Tectonic);
    assert_eq!(config.program, None);

    let config = tex_config_parse("texlive:foo:bar").unwrap();
    assert_eq!(config.distro, TexDistro::TexLive);
    assert_eq!(config.program, Some("foo:bar".to_string()));

    let config = tex_config_parse("tectonic:foo:bar").unwrap();
    assert_eq!(config.distro, TexDistro::Tectonic);
    assert_eq!(config.program, Some("foo:bar".to_string()));

    tex_config_parse("xxx").unwrap_err();
}

#[test]
fn distro_names_ignore_ascii_case() {
    assert_eq!(TexDistro::from_name("TeXLive"), Some(TexDistro::TexLive));
    assert_eq!(TexDistro::from_name("NONE"), Some(TexDistro::NoEngine));
    assert_eq!(TexDistro::from_name("TectonicEmbedded"), Some(TexDistro::TectonicEmbedded));
    assert_eq!(TexDistro::from_name("texlive "), None);
    assert_eq!(TexDistro::from_name(""), None);
    assert_eq!(TexDistro::Tectonic.name(), "tectonic");
}

#[test]
fn unknown_distro_lists_the_kinds() {
    match tex_config_parse("xxx:prog") {
        Err(TexError::UnknownDistro(m)) => assert_eq!(
            m,
            "Unexpected TeX distro type: 'xxx', possible choices are: [\"texlive\", \"tectonic\", \"tectonicembedded\", \"none\"]."
        ),
        _ => panic!("expected an unknown kind"),
    }
}

#[test]
fn config_parse_edge_cases() {
    let c = tex_config_parse("none:").unwrap();
    assert_eq!(c.distro, TexDistro::NoEngine);
    assert_eq!(c.program, Some(String::new()));
    let c = tex_config_parse("TEXLIVE:/usr/bin/xelatex").unwrap();
    assert_eq!(c.distro, TexDistro::TexLive);
    assert_eq!(c.to_text(), "texlive:/usr/bin/xelatex");
    assert!(tex_config_parse("").is_err());
    assert!(tex_config_parse(":xelatex").is_err());
}

#[test]
fn probe_fills_default_program() {
    let mut c = TexConfig::with_distro(TexDistro::TexLive);
    let cmd = c.probe_command().unwrap();
    assert_eq!(cmd.program, "xelatex");
    assert_eq!(cmd.arg, "-version");
    assert_eq!(c.program, Some("xelatex".to_string()));

    let mut c = tex_config_parse("tectonic:/opt/tt").unwrap();
    let cmd = c.probe_command().unwrap();
    assert_eq!(cmd.program, "/opt/tt");
    assert_eq!(cmd.arg, "--version");

    let mut c = TexConfig::with_distro(TexDistro::NoEngine);
    assert!(c.probe_command().is_none());
    assert_eq!(c.program, None);
}

#[test]
fn version_line_check() {
    assert!(version_line_usable("XeTeX 3.141592653"));
    assert!(!version_line_usable(""));
    assert!(!version_line_usable(" \t\r "));
    assert!(version_line_usable("  x "));
}

#[test]
fn render_args_per_backend() {
    let c = tex_config_parse("texlive:xelatex").unwrap();
    assert_eq!(
        c.render_args("/tmp/b", "/p/book.tex"),
        vec!["-interaction=nonstopmode", "-output-directory", "/tmp/b", "--", "/p/book.tex"]
    );
    let c = tex_config_parse("tectonic").unwrap();
    assert_eq!(
        c.render_args("/tmp/b", "book.tex"),
        vec!["-k", "-r", "0", "-o", "/tmp/b", "-Z", "search-path=/tmp/b", "--", "book.tex"]
    );
    let c = tex_config_parse("tectonicembedded:/bin/bard").unwrap();
    assert_eq!(c.render_args("d", "f.tex"), vec!["tectonic", "-o", "d", "--", "f.tex"]);
    assert_eq!(c.program_status(), "tectonic");
    let c = tex_config_parse("texlive:/usr/bin/xelatex").unwrap();
    assert_eq!(c.program_status(), "/usr/bin/xelatex");
}

#[test]
fn probe_waits_a_bounded_time() {
    assert_eq!(probe_wait(0, None), ProbeWait::Sleep);
    assert_eq!(probe_wait(PROBE_POLLS - 2, None), ProbeWait::Sleep);
    assert_eq!(probe_wait(PROBE_POLLS - 1, None), ProbeWait::Stop);
    assert_eq!(probe_wait(3, Some(true)), ProbeWait::Stop);
    assert_eq!(probe_wait(3, Some(false)), ProbeWait::Fail);
}
