use flashwright::client::show;
use flashwright::client::show_script;
use flashwright::client::Destination;
use flashwright::client::Output;
use flashwright::daemon::bytes_response;
use flashwright::daemon::data_response;
use flashwright::daemon::error_response;
use flashwright::daemon::outputs_response;
use flashwright::daemon::text_response;
use flashwright::daemon::Event;
use flashwright::daemon::Job;
use flashwright::daemon::Next;
use flashwright::error::Error;
use flashwright::frame::decode_ws_frame;
use flashwright::frame::Decoded;
use flashwright::json::Json;
use flashwright::page::Page;
use flashwright::session::Reply;
use flashwright::session::Sent;
use flashwright::session::Session;

fn session() -> Session {
    Session::open(b"HTTP/1.1 101 Switching Protocols\r\n\r\n").unwrap()
}

fn page() -> Page {
    Page { session_id: "S".to_string() }
}

fn parse(text: &str) -> Json {
    Json::parse(text).unwrap()
}

fn start(req: &str, s: &mut Session) -> Next {
    Job::start(&parse(req), &page(), s)
}

fn methods(sent: &Sent) -> Vec<String> {
    let mut out = Vec::new();
    let mut at = 0;
    while at < sent.bytes.len() {
        match decode_ws_frame(&sent.bytes[at..]) {
            Decoded::Frame { size, outcome } => {
                let msg = parse(&outcome.unwrap());
                out.push(msg.get_str("method").unwrap().to_string());
                at += size;
            }
            Decoded::More(_) => panic!("incomplete frame"),
        }
    }
    out
}

fn resume(job: Job, event: Event, s: &mut Session) -> Next {
    assert!(job.accepts(&event));
    job.resume(event, &page(), s)
}

fn exchange(next: Next, expected: &[&str], limit: u64) -> Job {
    match next {
        Next::Exchange(job, sent, seconds) => {
            assert_eq!(methods(&sent), expected);
            assert_eq!(sent.ids.len(), expected.len());
            assert_eq!(seconds, limit);
            job
        }
        other => panic!("{:?}", other),
    }
}

fn result(text: &str) -> Event {
    let answer = format!("{{\"id\":1,\"result\":{}}}", text);
    Event::Replies(vec![Reply::Arrived(parse(&answer))])
}

fn value(text: &str) -> Event {
    result(&format!("{{\"result\":{{\"value\":{}}}}}", text))
}

fn answer(next: Next) -> String {
    match next {
        Next::Respond(json) => json.into_text(),
        other => panic!("{:?}", other),
    }
}

#[test]
fn stop_is_answered() {
    match start("{\"cmd\":\"stop\"}", &mut session()) {
        Next::Stop(json) => assert_eq!(json.into_text(), "{\"ok\":true}"),
        other => panic!("{:?}", other),
    }
}

#[test]
fn refused_requests_are_answered() {
    let mut s = session();
    assert_eq!(
        answer(start("{\"cmd\":\"dance\"}", &mut s)),
        "{\"error\":\"unknown command: dance\"}"
    );
    assert_eq!(
        answer(start("{\"cmd\":\"viewport\"}", &mut s)),
        "{\"error\":\"no viewport specified\"}"
    );
    assert_eq!(s.send_nowait("A", Json::Null, None).ids, vec![1]);
}

#[test]
fn navigation_waits_for_the_document() {
    let mut s = session();
    let job = exchange(
        start("{\"cmd\":\"navigate\",\"args\":[\"http://a\"]}", &mut s),
        &["Page.navigate"],
        60,
    );
    let job = match resume(job, result("{}"), &mut s) {
        Next::Await(job, token, seconds) => {
            assert_eq!((token, seconds), (1, 10));
            job
        }
        other => panic!("{:?}", other),
    };
    assert!(!job.accepts(&Event::TransportClosed));
    assert_eq!(answer(resume(job, Event::Loaded, &mut s)), "{\"text\":\"navigated: http://a\"}");
}

#[test]
fn evaluation_says_its_value() {
    let mut s = session();
    let job = exchange(start("{\"cmd\":\"eval\",\"args\":[\"x\"]}", &mut s), &["Runtime.evaluate"], 60);
    assert_eq!(
        answer(resume(job, value("{\"b\":1,\"a\":\"é\"}"), &mut s)),
        "{\"text\":\"{\\\"a\\\":\\\"é\\\",\\\"b\\\":1}\"}"
    );
}

#[test]
fn title_and_content_say_texts() {
    for cmd in ["title", "content"] {
        let mut s = session();
        let job = exchange(start(&format!("{{\"cmd\":\"{}\"}}", cmd), &mut s), &["Runtime.evaluate"], 60);
        assert_eq!(answer(resume(job, value("\"T\""), &mut s)), "{\"text\":\"T\"}");
        let job = exchange(start(&format!("{{\"cmd\":\"{}\"}}", cmd), &mut s), &["Runtime.evaluate"], 60);
        assert_eq!(answer(resume(job, value("5"), &mut s)), "{\"text\":\"\"}");
    }
}

#[test]
fn click_finds_the_element_first() {
    let mut s = session();
    let job = exchange(
        start("{\"cmd\":\"click\",\"args\":[\"#a\"]}", &mut s),
        &["Runtime.evaluate"],
        60,
    );
    assert!(!job.accepts(&value("[1]")));
    let mouse = "Input.dispatchMouseEvent";
    let job = exchange(resume(job, value("[1,2]"), &mut s), &[mouse, mouse, mouse], 10);
    let replies = Event::Replies(vec![
        Reply::Arrived(parse("{}")),
        Reply::Arrived(parse("{}")),
        Reply::Arrived(parse("{}")),
    ]);
    assert_eq!(answer(resume(job, replies, &mut s)), "{\"text\":\"clicked: #a\"}");
}

#[test]
fn typing_inserts_the_text() {
    let mut s = session();
    let job = exchange(
        start("{\"cmd\":\"type\",\"args\":[\"#a\",\"hi\"]}", &mut s),
        &["Runtime.evaluate"],
        60,
    );
    let mouse = "Input.dispatchMouseEvent";
    let job = exchange(
        resume(job, value("[1,2]"), &mut s),
        &[mouse, mouse, mouse, "Input.insertText"],
        10,
    );
    let replies = Event::Replies(vec![Reply::Arrived(parse("{}")), Reply::TimedOut]);
    assert_eq!(answer(resume(job, replies, &mut s)), "{\"error\":\"batch command timed out\"}");
}

#[test]
fn missing_element_is_a_failure() {
    let mut s = session();
    let job = exchange(
        start("{\"cmd\":\"click\",\"args\":[\"#a\"]}", &mut s),
        &["Runtime.evaluate"],
        60,
    );
    assert_eq!(
        answer(resume(job, value("null"), &mut s)),
        "{\"error\":\"element not found or not visible\"}"
    );
}

#[test]
fn waiting_says_when_it_is_ready() {
    let mut s = session();
    let req = "{\"cmd\":\"wait\",\"args\":[\"#a\"],\"timeout\":5}";
    let job = exchange(start(req, &mut s), &["Runtime.evaluate"], 60);
    assert_eq!(answer(resume(job, value("true"), &mut s)), "{\"text\":\"ready: #a\"}");
    let job = exchange(start(req, &mut s), &["Runtime.evaluate"], 60);
    assert_eq!(
        answer(resume(job, value("false"), &mut s)),
        "{\"error\":\"timeout waiting for selector #a\"}"
    );
}

#[test]
fn viewport_says_its_size() {
    let mut s = session();
    let job = exchange(
        start("{\"cmd\":\"viewport\",\"viewport\":[800,600]}", &mut s),
        &["Emulation.setDeviceMetricsOverride"],
        60,
    );
    assert_eq!(answer(resume(job, result("{}"), &mut s)), "{\"text\":\"viewport: 800x600\"}");
}

#[test]
fn bytes_reach_the_client() {
    let mut s = session();
    let job = exchange(
        start("{\"cmd\":\"screenshot\",\"args\":[\"a.png\"]}", &mut s),
        &["Page.captureScreenshot"],
        60,
    );
    match resume(job, result("{\"data\":\"AQID\"}"), &mut s) {
        Next::Respond(json) => {
            assert_eq!(
                json.clone().into_text(),
                "{\"data_b64\":\"AQID\",\"kind\":\"screenshot\",\"out\":\"a.png\"}"
            );
            assert_eq!(
                show(&json),
                Ok(Output::Bytes(vec![1, 2, 3], Some("a.png".to_string()), "screenshot".to_string()))
            );
        }
        other => panic!("{:?}", other),
    }
    let job = exchange(start("{\"cmd\":\"pdf\"}", &mut s), &["Page.printToPDF"], 60);
    assert_eq!(
        answer(resume(job, result("{\"data\":\"/w==\"}"), &mut s)),
        "{\"data_b64\":\"/w==\",\"kind\":\"page\",\"out\":\"\"}"
    );
}

#[test]
fn failures_end_the_job() {
    let req = "{\"cmd\":\"title\"}";
    let cases = vec![
        (Event::TransportClosed, "{\"error\":\"transport closed\"}"),
        (Event::Replies(vec![Reply::TimedOut]), "{\"error\":\"command timed out\"}"),
        (Event::Replies(vec![Reply::Lost]), "{\"error\":\"channel closed\"}"),
        (
            Event::Replies(vec![Reply::Arrived(parse("{\"error\":7}"))]),
            "{\"error\":\"CDP error on Runtime.evaluate: 7\"}",
        ),
        (result("{}"), "{\"error\":\"no eval result\"}"),
        (result("{\"exceptionDetails\":1}"), "{\"error\":\"eval error: 1\"}"),
    ];
    for (event, expected) in cases {
        let mut s = session();
        let job = exchange(start(req, &mut s), &["Runtime.evaluate"], 60);
        assert_eq!(answer(resume(job, event, &mut s)), expected);
    }
    let mut s = session();
    let job = exchange(start("{\"cmd\":\"screenshot\"}", &mut s), &["Page.captureScreenshot"], 60);
    assert_eq!(answer(resume(job, result("{}"), &mut s)), "{\"error\":\"no screenshot data\"}");
    let job = exchange(start("{\"cmd\":\"pdf\"}", &mut s), &["Page.printToPDF"], 60);
    assert_eq!(answer(resume(job, result("{}"), &mut s)), "{\"error\":\"no pdf data\"}");
}

#[test]
fn failure_reaches_the_client() {
    match start("{\"cmd\":\"dance\"}", &mut session()) {
        Next::Respond(json) => {
            assert_eq!(show(&json).unwrap_err().message(), "\"unknown command: dance\"");
            assert_eq!(show_script(&json).unwrap_err().message(), "\"unknown command: dance\"");
        }
        other => panic!("{:?}", other),
    }
}

#[test]
fn script_runs_line_by_line() {
    let mut s = session();
    let req = "{\"cmd\":\"script\",\"lines\":[\"title\",\"screenshot a.png\",\"viewport 1x2\",\"pdf\"]}";
    let job = exchange(start(req, &mut s), &["Runtime.evaluate"], 60);
    let job = exchange(resume(job, value("\"T\""), &mut s), &["Page.captureScreenshot"], 60);
    let job = match resume(job, result("{\"data\":\"AQ==\"}"), &mut s) {
        Next::Save(job, to, bytes) => {
            assert_eq!(
                to,
                Destination::File("a.png".to_string(), "screenshot saved: a.png".to_string())
            );
            assert_eq!(bytes, vec![1]);
            job
        }
        other => panic!("{:?}", other),
    };
    let next = resume(job, Event::Saved(None), &mut s);
    let job = exchange(next, &["Emulation.setDeviceMetricsOverride"], 60);
    let job = exchange(resume(job, result("{}"), &mut s), &["Page.printToPDF"], 60);
    let job = match resume(job, result("{\"data\":\"\"}"), &mut s) {
        Next::Save(job, to, _) => {
            assert_eq!(to, Destination::Stdout);
            job
        }
        other => panic!("{:?}", other),
    };
    match resume(job, Event::Saved(None), &mut s) {
        Next::Respond(json) => {
            assert_eq!(json.clone().into_text(), "{\"outputs\":[\"T\",\"viewport: 1x2\"]}");
            assert_eq!(
                show_script(&json),
                Ok(vec!["T".to_string(), "viewport: 1x2".to_string()])
            );
        }
        other => panic!("{:?}", other),
    }
}

#[test]
fn script_stops_at_the_first_failure() {
    let mut s = session();
    let req = "{\"cmd\":\"script\",\"lines\":[\"title\",\"dance\",\"title\"]}";
    let job = exchange(start(req, &mut s), &["Runtime.evaluate"], 60);
    assert_eq!(
        answer(resume(job, value("\"T\""), &mut s)),
        "{\"error\":\"unknown command: dance\"}"
    );
    let req = "{\"cmd\":\"script\",\"lines\":[\"pdf x\",\"title\"]}";
    let job = exchange(start(req, &mut s), &["Page.printToPDF"], 60);
    let job = match resume(job, result("{\"data\":\"\"}"), &mut s) {
        Next::Save(job, _, _) => job,
        other => panic!("{:?}", other),
    };
    assert_eq!(
        answer(resume(job, Event::Saved(Some("disk full".to_string())), &mut s)),
        "{\"error\":\"disk full\"}"
    );
}

#[test]
fn empty_script_says_nothing() {
    assert_eq!(
        answer(start("{\"cmd\":\"script\",\"lines\":[]}", &mut session())),
        "{\"outputs\":[]}"
    );
}

#[test]
fn jobs_refuse_what_cannot_happen() {
    let mut s = session();
    let job = exchange(start("{\"cmd\":\"title\"}", &mut s), &["Runtime.evaluate"], 60);
    assert!(!job.accepts(&Event::Replies(vec![])));
    assert!(!job.accepts(&Event::Loaded));
    assert!(!job.accepts(&Event::Saved(None)));
    assert!(job.accepts(&Event::TransportClosed));
}

#[test]
fn every_job_is_answered() {
    let mut s = session();
    let req = "{\"cmd\":\"script\",\"lines\":[\"navigate u\",\"click #a\",\"pdf f\",\"title\"]}";
    let mut next = start(req, &mut s);
    let mut loaded = 0;
    let mut steps = 0;
    loop {
        next = match next {
            Next::Exchange(job, sent, _) => {
                if job.subscription().is_some() {
                    loaded += 1;
                }
                let event = if sent.ids.len() == 1 {
                    result("{\"data\":\"AQ==\",\"result\":{\"value\":[1,2]}}")
                } else {
                    Event::Replies(vec![Reply::Arrived(parse("{}")); sent.ids.len()])
                };
                resume(job, event, &mut s)
            }
            Next::Await(job, _, _) => resume(job, Event::Loaded, &mut s),
            Next::Save(job, _, _) => resume(job, Event::Saved(None), &mut s),
            Next::Respond(json) => {
                assert_eq!(
                    json.into_text(),
                    "{\"outputs\":[\"navigated: u\",\"clicked: #a\",\"\"]}"
                );
                break;
            }
            other => panic!("{:?}", other),
        };
        steps += 1;
    }
    assert_eq!(steps, 7);
    assert_eq!(loaded, 1);
}

#[test]
fn unreadable_requests_and_answers_are_left_alone() {
    let mut s = session();
    let req = parse("{\"cmd\":\"viewport\",\"viewport\":[1]}");
    assert_eq!(Job::try_start(&req, &page(), &mut s), None);
    let click = parse("{\"cmd\":\"click\",\"args\":[\"#a\"]}");
    match Job::try_start(&click, &page(), &mut s) {
        Some(Next::Exchange(job, sent, _)) => {
            assert_eq!(sent.ids, vec![1]);
            assert_eq!(job.subscription(), None);
            assert_eq!(job.try_resume(value("[]"), &page(), &mut s), None);
        }
        other => panic!("{:?}", other),
    }
    match Job::try_start(&click, &page(), &mut s) {
        Some(Next::Exchange(job, sent, _)) => {
            assert_eq!(sent.ids, vec![2]);
            assert!(job.try_resume(value("[1,2]"), &page(), &mut s).is_some());
        }
        other => panic!("{:?}", other),
    }
}

#[test]
fn answers_are_written() {
    let s = |text: &str| text.to_string();
    assert_eq!(text_response(s("a")).into_text(), "{\"text\":\"a\"}");
    assert_eq!(
        error_response(&Error::EmptyLine).into_text(),
        "{\"error\":\"empty line\"}"
    );
    assert_eq!(outputs_response(&vec![s("a"), s("b")]).into_text(), "{\"outputs\":[\"a\",\"b\"]}");
    assert_eq!(
        data_response(s("AQ=="), &None, "page").into_text(),
        "{\"data_b64\":\"AQ==\",\"kind\":\"page\",\"out\":\"\"}"
    );
    assert_eq!(
        show(&bytes_response(&vec![0, 255], &Some(s("f")), "page")),
        Ok(Output::Bytes(vec![0, 255], Some(s("f")), s("page")))
    );
}

#[test]
fn asked_size_is_set_first() {
    let size = "Emulation.setDeviceMetricsOverride";
    let req = "{\"cmd\":\"screenshot\",\"args\":[],\"timeout\":30000,\"viewport\":[800,600]}";
    let mut s = session();
    match start(req, &mut s) {
        Next::Exchange(job, sent, seconds) => {
            assert_eq!(seconds, 60);
            match decode_ws_frame(&sent.bytes) {
                Decoded::Frame { size: len, outcome } => {
                    assert_eq!(len, sent.bytes.len());
                    assert_eq!(
                        outcome.unwrap(),
                        "{\"id\":1,\"method\":\"Emulation.setDeviceMetricsOverride\",\"params\":{\"deviceScaleFactor\":1,\"height\":600,\"mobile\":false,\"width\":800},\"sessionId\":\"S\"}"
                    );
                }
                other => panic!("{:?}", other),
            }
            let job = exchange(resume(job, result("{}"), &mut s), &["Page.captureScreenshot"], 60);
            assert_eq!(
                answer(resume(job, result("{\"data\":\"AQ==\"}"), &mut s)),
                "{\"data_b64\":\"AQ==\",\"kind\":\"screenshot\",\"out\":\"\"}"
            );
        }
        other => panic!("{:?}", other),
    }
    let job = exchange(start(req, &mut s), &[size], 60);
    let refused = Event::Replies(vec![Reply::Arrived(parse("{\"error\":1}"))]);
    assert_eq!(
        answer(resume(job, refused, &mut s)),
        "{\"error\":\"CDP error on Emulation.setDeviceMetricsOverride: 1\"}"
    );
}

#[test]
fn asked_size_is_set_once_for_a_viewport() {
    let mut s = session();
    let job = exchange(
        start("{\"cmd\":\"viewport\",\"viewport\":[8,6]}", &mut s),
        &["Emulation.setDeviceMetricsOverride"],
        60,
    );
    assert_eq!(answer(resume(job, result("{}"), &mut s)), "{\"text\":\"viewport: 8x6\"}");
}

#[test]
fn asked_size_is_set_before_navigation_and_scripts() {
    let size = "Emulation.setDeviceMetricsOverride";
    let mut s = session();
    let req = "{\"cmd\":\"navigate\",\"args\":[\"u\"],\"viewport\":[8,6]}";
    let job = exchange(start(req, &mut s), &[size], 60);
    assert_eq!(job.subscription(), None);
    let job = exchange(resume(job, result("{}"), &mut s), &["Page.navigate"], 60);
    assert_eq!(job.subscription(), Some(1));
    let req = "{\"cmd\":\"script\",\"lines\":[\"title\"],\"viewport\":[8,6]}";
    let job = exchange(start(req, &mut s), &[size], 60);
    let job = exchange(resume(job, result("{}"), &mut s), &["Runtime.evaluate"], 60);
    assert_eq!(answer(resume(job, value("\"T\""), &mut s)), "{\"outputs\":[\"T\"]}");
}

#[test]
fn nothing_is_set_unasked() {
    let mut s = session();
    for req in [
        "{\"cmd\":\"title\",\"viewport\":null}",
        "{\"cmd\":\"title\",\"viewport\":[8]}",
        "{\"cmd\":\"script\",\"lines\":[\"title\"]}",
    ] {
        exchange(start(req, &mut s), &["Runtime.evaluate"], 60);
    }
}

#[test]
fn click_needs_every_answer() {
    let mut s = session();
    let mouse = "Input.dispatchMouseEvent";
    let req = "{\"cmd\":\"click\",\"args\":[\"a\"]}";
    let job = exchange(start(req, &mut s), &["Runtime.evaluate"], 60);
    let job = exchange(resume(job, value("[1,2]"), &mut s), &[mouse, mouse, mouse], 10);
    let ok = || Reply::Arrived(parse("{}"));
    assert!(!job.accepts(&Event::Replies(vec![])));
    assert!(!job.accepts(&Event::Replies(vec![ok(), ok()])));
    assert!(!job.accepts(&Event::Replies(vec![ok(), ok(), ok(), ok()])));
    assert!(job.accepts(&Event::Replies(vec![ok(), Reply::Lost])));
    assert!(job.accepts(&Event::Replies(vec![ok(), ok(), ok()])));
}

#[test]
fn wait_gets_its_time() {
    for (timeout, limit) in [
        ("0", 60),
        ("30000", 60),
        ("59999", 60),
        ("60000", 70),
        ("90000", 100),
        ("18446744073709551615", 18446744073709561),
    ] {
        let mut s = session();
        let req = format!("{{\"cmd\":\"wait\",\"args\":[\"h1\"],\"timeout\":{}}}", timeout);
        exchange(start(&req, &mut s), &["Runtime.evaluate"], limit);
        let req = format!("{{\"cmd\":\"script\",\"lines\":[\"wait h1\"],\"timeout\":{}}}", timeout);
        exchange(start(&req, &mut s), &["Runtime.evaluate"], limit);
    }
    exchange(
        start("{\"cmd\":\"title\",\"timeout\":90000}", &mut session()),
        &["Runtime.evaluate"],
        60,
    );
}
