use flashwright::args::Args;
use flashwright::client::ensure_daemon;
use flashwright::client::request;
use flashwright::client::script_file;
use flashwright::client::script_request;
use flashwright::client::show;
use flashwright::client::show_bytes;
use flashwright::client::show_script;
use flashwright::client::stop_request;
use flashwright::client::write_bytes;
use flashwright::client::Destination;
use flashwright::client::Errand;
use flashwright::client::Output;
use flashwright::client::Sight;
use flashwright::error::Error;
use flashwright::json::Json;

fn parse(text: &str) -> Json {
    Json::parse(text).unwrap()
}

fn args(command: &str, cmd_args: &[&str], viewport: Option<(u32, u32)>) -> Args {
    Args {
        chrome: None,
        headed: false,
        timeout: 30000,
        viewport,
        command: command.to_string(),
        cmd_args: cmd_args.iter().map(|w| w.to_string()).collect(),
    }
}

#[test]
fn daemon_is_started_once() {
    let mut started = false;
    let mut see = |sight: Sight| ensure_daemon(&mut started, sight);
    assert_eq!(see(Sight::Answers(false)), Ok(Errand::Start));
    assert_eq!(see(Sight::Started), Ok(Errand::CheckDaemon));
    assert_eq!(see(Sight::Answers(false)), Ok(Errand::CheckClock));
    assert_eq!(see(Sight::Elapsed(30_000_000_000)), Ok(Errand::Pause(20)));
    assert_eq!(see(Sight::Paused), Ok(Errand::CheckDaemon));
    assert_eq!(see(Sight::Answers(true)), Ok(Errand::Done));
    assert_eq!(see(Sight::Elapsed(30_000_000_001)), Err(Error::DaemonNotStarted));
    assert!(started);
}

#[test]
fn running_daemon_is_not_started() {
    let mut started = false;
    assert_eq!(ensure_daemon(&mut started, Sight::Answers(true)), Ok(Errand::Done));
    assert!(!started);
}

#[test]
fn requests_are_written() {
    assert_eq!(
        request(&args("type", &["#a", "b"], None)).into_text(),
        "{\"args\":[\"#a\",\"b\"],\"cmd\":\"type\",\"timeout\":30000,\"viewport\":null}"
    );
    assert_eq!(
        request(&args("viewport", &[], Some((8, 6)))).into_text(),
        "{\"args\":[],\"cmd\":\"viewport\",\"timeout\":30000,\"viewport\":[8,6]}"
    );
    assert_eq!(
        script_request(&vec!["title".to_string()], 5, None).into_text(),
        "{\"cmd\":\"script\",\"lines\":[\"title\"],\"timeout\":5}"
    );
    assert_eq!(
        script_request(&vec![], 5, Some((8, 6))).into_text(),
        "{\"cmd\":\"script\",\"lines\":[],\"timeout\":5,\"viewport\":[8,6]}"
    );
    assert_eq!(stop_request().into_text(), "{\"cmd\":\"stop\"}");
}

#[test]
fn script_file_is_the_first_argument() {
    assert_eq!(script_file(&args("script", &["a.txt", "b"], None)), "a.txt");
    assert_eq!(script_file(&args("script", &[], None)), "");
}

#[test]
fn text_is_shown() {
    assert_eq!(show(&parse("{\"text\":\"hi\"}")), Ok(Output::Text("hi".to_string())));
    assert_eq!(show(&parse("{\"text\":5}")), Ok(Output::Nothing));
    assert_eq!(show(&parse("[]")), Ok(Output::Nothing));
}

#[test]
fn bytes_are_shown() {
    assert_eq!(
        show(&parse("{\"data_b64\":\"AQI=\",\"out\":\"f.png\",\"kind\":\"screenshot\"}")),
        Ok(Output::Bytes(vec![1, 2], Some("f.png".to_string()), "screenshot".to_string()))
    );
    assert_eq!(
        show(&parse("{\"data_b64\":\"\",\"out\":\"\",\"text\":\"x\"}")),
        Ok(Output::Bytes(vec![], None, "output".to_string()))
    );
    assert!(show(&parse("{\"data_b64\":\"A\"}")).is_err());
}

#[test]
fn failures_are_told_as_json() {
    assert_eq!(
        show(&parse("{\"error\":\"no \\\"x\\\"\",\"text\":\"t\"}")).unwrap_err().message(),
        "\"no \\\"x\\\"\""
    );
    assert_eq!(
        show_script(&parse("{\"error\":null,\"outputs\":[]}")),
        Err(Error::Daemon("null".to_string()))
    );
}

#[test]
fn outputs_are_shown_line_by_line() {
    assert_eq!(
        show_script(&parse("{\"outputs\":[\"a\",1,\"b\"]}")),
        Ok(vec!["a".to_string(), "b".to_string()])
    );
    assert_eq!(show_script(&parse("{}")), Ok(vec![]));
    assert_eq!(show_script(&parse("{\"outputs\":\"a\"}")), Ok(vec![]));
}

#[test]
fn bytes_go_to_a_file_or_to_the_output() {
    assert_eq!(
        write_bytes(Some("a.pdf"), "page"),
        Destination::File("a.pdf".to_string(), "page saved: a.pdf".to_string())
    );
    assert_eq!(write_bytes(Some(""), "page"), Destination::Stdout);
    assert_eq!(write_bytes(None, "page"), Destination::Stdout);
}

#[test]
fn shown_bytes_take_file_and_kind_from_the_answer() {
    assert_eq!(
        show_bytes(vec![7], &parse("{\"out\":\"f\"}")),
        Output::Bytes(vec![7], Some("f".to_string()), "output".to_string())
    );
}
