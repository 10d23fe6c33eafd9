// Tests named after command-line scenarios of `dock` check the share of the
// scenario that this library decides: the plan of the run, the arguments of
// the `docker` commands and the errors reported. Running Docker and looking
// at what it leaves behind belong to the binary, and aren't tested here.

use dock::cmd_loggers::is_newline;
use dock::cmd_loggers::CapturingCmdLogger;
use dock::cmd_loggers::CmdLoggerMsg;
use dock::cmd_loggers::Prefixer;
use dock::cmd_loggers::PrefixingCmdLogger;
use dock::cmd_loggers::Stream;
use dock::cmd_loggers::TimingPrefixingCmdLogger;
use dock::run_in::CmdLoggers;

fn strings(xs: &[&str]) -> Vec<String> {
    xs.iter().map(|s| s.to_string()).collect()
}

#[test]
fn shell_debug_flag() {
    let mut logger = PrefixingCmdLogger::new(b"[$] ", Prefixer::new(b"[>] "), Prefixer::new(b"[!] "));
    let build = strings(&["docker", "build", "--tag=img"]);

    let cmd = logger.render(&CmdLoggerMsg::Cmd(&build));
    let out = logger.render(&CmdLoggerMsg::StdoutWrite(b"Sending build context to Docker daemon\nSuccessfully built 123\n"));
    let run = strings(&["docker", "run"]);
    let run_line = logger.render(&CmdLoggerMsg::Cmd(&run));
    let shell = logger.render(&CmdLoggerMsg::StdoutWrite(b"/ # "));

    let cmd = String::from_utf8(cmd).unwrap();
    let out = String::from_utf8(out).unwrap();
    assert!(cmd.starts_with("[$] docker build "));
    assert_eq!(cmd, "[$] docker build --tag=img \n");
    assert!(out.starts_with("[>] Sending build context to Docker "));
    assert!(out.contains("\n[>] Successfully built "));
    assert!(String::from_utf8(run_line).unwrap().starts_with("[$] docker run "));
    assert_eq!(String::from_utf8(shell).unwrap(), "[>] / # ");
}

#[test]
fn prefixing_across_chunks_equals_whole() {
    let whole = b"ab\ncd\n\nef";
    let mut p1 = Prefixer::new(b"> ");
    let all = p1.prefix(whole);

    let mut p2 = Prefixer::new(b"> ");
    let mut parts = p2.prefix(b"ab\nc");
    parts.extend(p2.prefix(b""));
    parts.extend(p2.prefix(b"d\n"));
    parts.extend(p2.prefix(b"\nef"));

    assert_eq!(all, parts);
    assert_eq!(String::from_utf8(all).unwrap(), "> ab\n> cd\n> \n> ef");
}

#[test]
fn prefixer_continues_line_across_chunks() {
    let mut p = Prefixer::new(b"[!] ");

    assert_eq!(p.prefix(b"abc"), b"[!] abc".to_vec());
    assert_eq!(p.prefix(b"def\n"), b"def\n".to_vec());
    assert_eq!(p.prefix(b"g"), b"[!] g".to_vec());
    assert_eq!(p.prefix(b""), Vec::<u8>::new());
}

#[test]
fn newline_is_only_newline() {
    assert!(is_newline(b'\n'));
    assert!(!is_newline(b'\r'));
    assert!(!is_newline(b' '));
}

#[test]
fn capturing_records_output_in_order() {
    let mut logger = CapturingCmdLogger::new();
    let cmd = strings(&["docker", "build"]);

    logger.log(&CmdLoggerMsg::Cmd(&cmd));
    logger.log(&CmdLoggerMsg::Start);
    logger.log(&CmdLoggerMsg::StderrWrite(b"e1"));
    logger.log(&CmdLoggerMsg::StdoutWrite(b"o1"));
    logger.log(&CmdLoggerMsg::StderrWrite(b"e2"));
    logger.log(&CmdLoggerMsg::Exit);

    assert_eq!(logger.chunks.len(), 3);
    assert!(matches!(logger.chunks[0].0, Stream::Stderr));
    assert_eq!(logger.chunks[0].1, b"e1".to_vec());
    assert!(matches!(logger.chunks[1].0, Stream::Stdout));
    assert_eq!(logger.chunks[1].1, b"o1".to_vec());
    assert!(matches!(logger.chunks[2].0, Stream::Stderr));
    assert_eq!(logger.chunks[2].1, b"e2".to_vec());
}

#[test]
fn timing_logger_logs_duration_on_exit() {
    let inner = PrefixingCmdLogger::new(b"[$] ", Prefixer::new(b"[>] "), Prefixer::new(b"[!] "));
    let mut logger = TimingPrefixingCmdLogger::new(inner, b"[T] ");
    let cmd = strings(&["true"]);

    assert!(!logger.started());
    let c = logger.render(&CmdLoggerMsg::Cmd(&cmd), b"");
    let s = logger.render(&CmdLoggerMsg::Start, b"");
    assert!(logger.started());
    let e = logger.render(&CmdLoggerMsg::StderrWrite(b"oops\n"), b"");
    let x = logger.render(&CmdLoggerMsg::Exit, b"1.5s");

    assert_eq!(String::from_utf8(c).unwrap(), "[$] true \n");
    assert!(s.is_empty());
    assert_eq!(String::from_utf8(e).unwrap(), "[!] oops\n");
    assert_eq!(String::from_utf8(x).unwrap(), "[T] 1.5s\n");
}

#[test]
fn cmd_loggers_dispatch() {
    let inner = PrefixingCmdLogger::new(b"[$] ", Prefixer::new(b"[>] "), Prefixer::new(b"[!] "));
    let mut debugging = CmdLoggers::Debugging(TimingPrefixingCmdLogger::new(inner, b"[T] "));
    let mut capturing = CmdLoggers::Capturing(CapturingCmdLogger::new());

    let d = debugging.log(&CmdLoggerMsg::StdoutWrite(b"hi\n"), b"");
    let c = capturing.log(&CmdLoggerMsg::StdoutWrite(b"hi\n"), b"");

    assert_eq!(String::from_utf8(d).unwrap(), "[>] hi\n");
    assert!(c.is_empty());
    match capturing {
        CmdLoggers::Capturing(l) => assert_eq!(l.chunks.len(), 1),
        CmdLoggers::Debugging(_) => panic!("expected a capturing logger"),
    }
}

#[test]
fn spinner_text() {
    let (frame, next) = dock::spinner::spinner_frame(0);
    assert_eq!(frame, "\u{8}⣷");
    assert_eq!(next, 1);
    let (frame, next) = dock::spinner::spinner_frame(7);
    assert_eq!(frame, "\u{8}⣾");
    assert_eq!(next, 0);
    assert_eq!(dock::spinner::spinner_start("Rebuilding 'x'"), "Rebuilding 'x'  ");
    assert_eq!(dock::spinner::spinner_end(), "\u{1b}[1G\u{1b}[2K");
}
