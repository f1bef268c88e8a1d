use flashwright::args::Args;
use flashwright::client::json_line;
use flashwright::client::request;
use flashwright::client::script_request;
use flashwright::client::stop_request;
use flashwright::error::Error;
use flashwright::json::Json;
use flashwright::request::get_arg;
use flashwright::request::read_request;
use flashwright::request::readable;
use flashwright::request::size_asked;
use flashwright::request::timeout_of;
use flashwright::request::Wanted;
use flashwright::script::parse_script_line;
use flashwright::script::Action;

fn parse(text: &str) -> Json {
    Json::parse(text).unwrap()
}

fn s(text: &str) -> String {
    text.to_string()
}

fn wanted(text: &str) -> Result<Wanted, Error> {
    let req = parse(text);
    assert!(readable(&req));
    read_request(&req)
}

fn line_args(command: &str, cmd_args: &[&str], viewport: Option<(u32, u32)>) -> Args {
    Args {
        chrome: None,
        headed: false,
        timeout: 7,
        viewport,
        command: s(command),
        cmd_args: cmd_args.iter().map(|w| s(w)).collect(),
    }
}

#[test]
fn arguments_are_texts() {
    let list = vec![parse("\"a\""), parse("1")];
    assert_eq!(get_arg(Some(&list), 0), "a");
    assert_eq!(get_arg(Some(&list), 1), "");
    assert_eq!(get_arg(Some(&list), 2), "");
    assert_eq!(get_arg(None, 0), "");
}

#[test]
fn commands_are_actions() {
    let page = |action: Action| Ok(Wanted::Page(action));
    assert_eq!(wanted("{\"cmd\":\"stop\"}"), Ok(Wanted::Stop));
    assert_eq!(wanted("{\"cmd\":\"navigate\",\"args\":[\"u\"]}"), page(Action::Navigate(s("u"))));
    assert_eq!(wanted("{\"cmd\":\"navigate\"}"), page(Action::Navigate(s(""))));
    assert_eq!(
        wanted("{\"cmd\":\"eval\",\"args\":[\"a\",2,\"b\"]}"),
        page(Action::Eval(s("a  b")))
    );
    assert_eq!(wanted("{\"cmd\":\"eval\"}"), page(Action::Eval(s(""))));
    assert_eq!(wanted("{\"cmd\":\"click\",\"args\":[\"#a\"]}"), page(Action::Click(s("#a"))));
    assert_eq!(
        wanted("{\"cmd\":\"type\",\"args\":[\"#a\"]}"),
        page(Action::Type(s("#a"), s("")))
    );
    assert_eq!(
        wanted("{\"cmd\":\"screenshot\",\"args\":[]}"),
        page(Action::Screenshot(None, s("png")))
    );
    assert_eq!(
        wanted("{\"cmd\":\"screenshot\",\"args\":[\"f\",\"jpeg\"]}"),
        page(Action::Screenshot(Some(s("f")), s("jpeg")))
    );
    assert_eq!(wanted("{\"cmd\":\"pdf\",\"args\":[\"f\"]}"), page(Action::Pdf(Some(s("f")))));
    assert_eq!(wanted("{\"cmd\":\"wait\",\"args\":[\"#a\"]}"), page(Action::Wait(s("#a"))));
    assert_eq!(wanted("{\"cmd\":\"title\"}"), page(Action::Title));
    assert_eq!(wanted("{\"cmd\":\"content\"}"), page(Action::Content));
    assert_eq!(
        wanted("{\"cmd\":\"script\",\"lines\":[\"title\",3,\"pdf\"]}"),
        Ok(Wanted::Script(vec![s("title"), s("pdf")]))
    );
    assert_eq!(wanted("{\"cmd\":\"script\"}"), Ok(Wanted::Script(vec![])));
}

#[test]
fn viewports_are_read() {
    assert_eq!(
        wanted("{\"cmd\":\"viewport\",\"viewport\":[8,6]}"),
        Ok(Wanted::Page(Action::Viewport(8, 6)))
    );
    assert_eq!(
        wanted("{\"cmd\":\"viewport\",\"viewport\":[\"a\",null]}"),
        Ok(Wanted::Page(Action::Viewport(1280, 720)))
    );
    assert_eq!(
        wanted("{\"cmd\":\"viewport\",\"viewport\":[4294967297,4294967296]}"),
        Ok(Wanted::Page(Action::Viewport(1, 0)))
    );
    assert_eq!(wanted("{\"cmd\":\"viewport\",\"viewport\":null}"), Err(Error::NoViewport));
    assert_eq!(wanted("{\"cmd\":\"viewport\"}"), Err(Error::NoViewport));
    assert!(!readable(&parse("{\"cmd\":\"viewport\",\"viewport\":[8]}")));
    assert!(readable(&parse("{\"cmd\":\"title\",\"viewport\":[8]}")));
}

#[test]
fn unknown_commands_are_refused() {
    assert_eq!(wanted("{\"cmd\":\"dance\"}"), Err(Error::UnknownCommand(s("dance"))));
    assert_eq!(wanted("{}"), Err(Error::UnknownCommand(s(""))));
    assert_eq!(wanted("3"), Err(Error::UnknownCommand(s(""))));
    assert_eq!(wanted("{\"cmd\":\"goto\"}"), Err(Error::UnknownCommand(s("goto"))));
}

#[test]
fn timeouts_are_read() {
    assert_eq!(timeout_of(&parse("{\"timeout\":5}")), 5);
    assert_eq!(timeout_of(&parse("{\"timeout\":-5}")), 30000);
    assert_eq!(timeout_of(&parse("{}")), 30000);
}

#[test]
fn request_reads_back() {
    let line = json_line(request(&line_args("viewport", &["é\n"], Some((8, 6)))));
    let req = parse(&line);
    assert_eq!(timeout_of(&req), 7);
    assert_eq!(size_asked(&req), Some((8, 6)));
    assert_eq!(size_asked(&parse("{\"viewport\":[8]}")), None);
    assert_eq!(get_arg(req.get("args").unwrap().as_array(), 0), "é\n");
    assert_eq!(read_request(&req), Ok(Wanted::Page(Action::Viewport(8, 6))));
}

#[test]
fn script_reads_back() {
    let lines = vec![s("title"), s("eval '1\t2'")];
    let req = parse(&json_line(script_request(&lines, 9, Some((8, 6)))));
    assert_eq!(size_asked(&req), Some((8, 6)));
    assert_eq!(size_asked(&script_request(&lines, 9, None)), None);
    assert_eq!(read_request(&req), Ok(Wanted::Script(lines)));
    assert_eq!(timeout_of(&req), 9);
}

#[test]
fn stop_reads_back() {
    assert_eq!(read_request(&parse(&json_line(stop_request()))), Ok(Wanted::Stop));
}

#[test]
fn commands_mean_the_same_in_a_script() {
    for (command, cmd_args) in [
        ("navigate", vec!["http://a"]),
        ("eval", vec!["1+1"]),
        ("click", vec!["#a"]),
        ("type", vec!["#a", "b"]),
        ("screenshot", vec![]),
        ("screenshot", vec!["f", "jpeg"]),
        ("pdf", vec!["f"]),
        ("wait", vec!["#a"]),
        ("title", vec![]),
        ("content", vec![]),
    ] {
        let line = format!("{} {}", command, cmd_args.join(" "));
        let action = parse_script_line(&line).unwrap();
        let req = request(&line_args(command, &cmd_args, None));
        assert_eq!(read_request(&req), Ok(Wanted::Page(action)));
    }
}
