use bard_tex::field::{Attr, Field};
use bard_tex::interrupt::{decide_poll, InterruptError, InterruptFlag, PollStep, RecvOutcome};
use bard_tex::opts::{echo_command, replay_after, stream_mode, MakeOpts, StdioOpts, StreamMode, NORMAL, QUIET, VERBOSE};
use bard_tex::opts::Transcript;
use std::sync::atomic::AtomicBool;

static FLAG: AtomicBool = AtomicBool::new(false);

#[test]
fn interrupt_flag_is_sticky() {
    let f = InterruptFlag(&FLAG);
    assert!(f.check_interrupted().is_ok());
    assert!(matches!(f.after_poll(RecvOutcome::<u8>::Timeout), PollStep::Again));
    f.interrupt();
    f.interrupt();
    assert!(f.interrupted());
    assert_eq!(f.check_interrupted(), Err(InterruptError));
    assert_eq!(InterruptError.message(), "Interrupted.");
    assert!(matches!(f.after_poll(RecvOutcome::<u8>::Timeout), PollStep::Done(Err(InterruptError))));
    assert!(matches!(f.after_poll(RecvOutcome::Value(7u8)), PollStep::Done(Ok(Some(7)))));
}

#[test]
fn poll_decisions() {
    assert!(matches!(decide_poll(RecvOutcome::Value(3u32), true), PollStep::Done(Ok(Some(3)))));
    assert!(matches!(decide_poll(RecvOutcome::<u32>::Disconnected, false), PollStep::Done(Ok(None))));
    assert!(matches!(decide_poll(RecvOutcome::<u32>::Timeout, false), PollStep::Again));
    assert!(matches!(decide_poll(RecvOutcome::<u32>::Timeout, true), PollStep::Done(Err(_))));
}

#[test]
fn verbosity_levels() {
    let o = |quiet, verbose| StdioOpts { quiet, verbose, color: None }.verbosity();
    assert_eq!(o(false, false), NORMAL);
    assert_eq!(o(false, true), VERBOSE);
    assert_eq!(o(true, false), QUIET);
    assert_eq!(o(true, true), NORMAL);
    let m = MakeOpts::from(StdioOpts { quiet: true, verbose: false, color: Some(true) });
    assert!(!m.no_postprocess);
    assert_eq!(m.keep, 0);
    assert_eq!(m.stdio.color, Some(true));
}

#[test]
fn output_display_by_verbosity() {
    assert_eq!(stream_mode(QUIET), StreamMode::Hidden);
    assert_eq!(stream_mode(NORMAL), StreamMode::Overwrite);
    assert_eq!(stream_mode(VERBOSE), StreamMode::Passthrough);
    assert!(echo_command(VERBOSE) && !echo_command(NORMAL));
    assert!(replay_after(NORMAL, false));
    assert!(!replay_after(NORMAL, true));
    assert!(!replay_after(VERBOSE, false));
    assert!(!replay_after(QUIET, false));
}

#[test]
fn transcript_keeps_arrival_order() {
    let mut t = Transcript::new();
    t.push(b"out 1\n".to_vec());
    t.push(b"err 1\n".to_vec());
    t.push(b"out 2\n".to_vec());
    assert_eq!(t.len(), 3);
    assert_eq!(t.into_lines(), vec![b"out 1\n".to_vec(), b"err 1\n".to_vec(), b"out 2\n".to_vec()]);
}

#[test]
fn fields_and_attrs() {
    let f = Field::new("title", 5u32);
    assert_eq!(f.name, "title");
    assert_eq!(f.unwrap(), 5);
    let some = Some("x".to_string());
    let t = Field::new("sub", &some).transpose().unwrap();
    assert_eq!(t.name, "sub");
    assert_eq!(t.value, "x");
    let none: Option<String> = None;
    assert!(Field::new("sub", &none).transpose().is_none());
    let a = Attr::from_field(Field::new("id", "v1".to_string()));
    assert_eq!((a.0.as_str(), a.1.as_str()), ("id", "v1"));
    let b = Attr::new("k", "v");
    assert_eq!(b.1, "v");
}
