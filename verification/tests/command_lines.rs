use flashwright::args::daemon_args;
use flashwright::args::mode;
use flashwright::args::parse_args;
use flashwright::args::Args;
use flashwright::args::Invocation;
use flashwright::args::Mode;
use flashwright::args::HELP;
use flashwright::args::VERSION;
use flashwright::error::Error;

fn read(words: &[&str]) -> Result<Invocation, Error> {
    let mut argv = vec!["flashwright".to_string()];
    argv.extend(words.iter().map(|w| w.to_string()));
    parse_args(&argv)
}

fn run(words: &[&str]) -> Args {
    match read(words) {
        Ok(Invocation::Run(args)) => args,
        other => panic!("{:?}", other),
    }
}

fn plain(command: &str, cmd_args: &[&str]) -> Args {
    Args {
        chrome: None,
        headed: false,
        timeout: 30000,
        viewport: None,
        command: command.to_string(),
        cmd_args: cmd_args.iter().map(|w| w.to_string()).collect(),
    }
}

#[test]
fn words_are_kept() {
    assert_eq!(run(&["type", "#a", "x y"]), plain("type", &["#a", "x y"]));
    assert_eq!(run(&["title"]), plain("title", &[]));
}

#[test]
fn options_stand_anywhere() {
    let args = run(&["--headed", "eval", "--timeout", "5", "1", "--viewport", "8x6", "--chrome", "/c", "2"]);
    assert_eq!(
        args,
        Args {
            chrome: Some("/c".to_string()),
            headed: true,
            timeout: 5,
            viewport: Some((8, 6)),
            command: "eval".to_string(),
            cmd_args: vec!["1".to_string(), "2".to_string()],
        }
    );
}

#[test]
fn option_takes_the_next_word_whatever_it_is() {
    assert_eq!(run(&["--chrome", "--headed", "x"]).chrome, Some("--headed".to_string()));
    assert!(!run(&["--chrome", "--headed", "x"]).headed);
}

#[test]
fn option_without_value_is_left_out() {
    assert_eq!(run(&["x", "--chrome"]), plain("x", &[]));
    assert_eq!(run(&["x", "--timeout"]), plain("x", &[]));
    assert_eq!(run(&["x", "--viewport"]), plain("x", &[]));
}

#[test]
fn bad_values_fall_back() {
    assert_eq!(run(&["--timeout", "soon", "x"]).timeout, 30000);
    assert_eq!(run(&["--timeout", "5", "--timeout", "-1", "x"]).timeout, 30000);
    assert_eq!(run(&["--viewport", "8x6", "--viewport", "big", "x"]).viewport, None);
}

#[test]
fn help_and_version_come_first() {
    assert_eq!(read(&["x", "--help", "--version"]), Ok(Invocation::Help));
    assert_eq!(read(&["-h"]), Ok(Invocation::Help));
    assert_eq!(read(&["--version", "-h"]), Ok(Invocation::Version));
    assert_eq!(read(&["-V"]), Ok(Invocation::Version));
    assert_eq!(run(&["--chrome", "-h", "x"]).chrome, Some("-h".to_string()));
}

#[test]
fn command_is_needed() {
    assert_eq!(read(&[]), Err(Error::NoCommand));
    assert_eq!(read(&["--headed"]), Err(Error::NoCommand));
    assert_eq!(parse_args(&Vec::new()), Err(Error::NoCommand));
}

#[test]
fn commands_run_parts_of_the_program() {
    assert_eq!(mode("serve"), Mode::Serve);
    assert_eq!(mode("stop"), Mode::Stop);
    assert_eq!(mode("script"), Mode::Script);
    assert_eq!(mode("title"), Mode::Client);
    assert_eq!(mode(""), Mode::Client);
}

#[test]
fn daemon_line_reads_back() {
    let args = run(&["--headed", "--chrome", "/c d", "--timeout", "7", "--viewport", "1x2", "title"]);
    let line = daemon_args(&args);
    assert_eq!(line, vec!["serve", "--headed", "--chrome", "/c d"]);
    let words: Vec<&str> = line.iter().map(|w| w.as_str()).collect();
    let mut expected = plain("serve", &[]);
    expected.headed = true;
    expected.chrome = Some("/c d".to_string());
    assert_eq!(run(&words), expected);
    assert_eq!(daemon_args(&plain("title", &[])), vec!["serve"]);
}

#[test]
fn program_tells_of_itself() {
    assert_eq!(VERSION, "flashwright 1.0.0");
    assert!(HELP.starts_with("flashwright 1.0.0 - fast Chromium automation\n\nUSAGE:\n"));
    assert!(HELP.ends_with("Subsequent commands reuse it."));
    assert_eq!(HELP.lines().count(), 26);
}
