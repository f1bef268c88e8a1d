use flashwright::daemon::Event;
use flashwright::frame::decode_ws_frame;
use flashwright::frame::Decoded;
use flashwright::json::Json;
use flashwright::page::Page;
use flashwright::session::Reply;
use flashwright::session::Sent;
use flashwright::session::Session;
use flashwright::startup::Opening;
use flashwright::startup::Startup;

fn session() -> Session {
    Session::open(b"HTTP/1.1 101 Switching Protocols\r\n\r\n").unwrap()
}

fn parse(text: &str) -> Json {
    Json::parse(text).unwrap()
}

fn texts(sent: &Sent) -> Vec<String> {
    let mut out = Vec::new();
    let mut at = 0;
    while at < sent.bytes.len() {
        match decode_ws_frame(&sent.bytes[at..]) {
            Decoded::Frame { size, outcome } => {
                out.push(outcome.unwrap());
                at += size;
            }
            Decoded::More(_) => panic!("incomplete frame"),
        }
    }
    out
}

fn exchange(next: Opening, expected: &[&str], limit: u64) -> Startup {
    match next {
        Opening::Exchange(startup, sent, seconds) => {
            assert_eq!(texts(&sent), expected);
            assert_eq!(seconds, limit);
            startup
        }
        other => panic!("{:?}", other),
    }
}

fn replies(results: &[&str]) -> Event {
    Event::Replies(
        results
            .iter()
            .map(|r| Reply::Arrived(parse(&format!("{{\"result\":{}}}", r))))
            .collect(),
    )
}

fn resume(startup: Startup, event: Event, s: &mut Session) -> Opening {
    assert!(startup.accepts(&event));
    startup.try_resume(event, s).unwrap().unwrap()
}

fn enabled(s: &mut Session, viewport: Option<(u32, u32)>) -> Startup {
    let startup = exchange(
        Startup::begin(s, viewport),
        &["{\"id\":1,\"method\":\"Target.createTarget\",\"params\":{\"url\":\"about:blank\"}}"],
        60,
    );
    let startup = exchange(
        resume(startup, replies(&["{\"targetId\":\"T\"}"]), s),
        &["{\"id\":2,\"method\":\"Target.attachToTarget\",\"params\":{\"flatten\":true,\"targetId\":\"T\"}}"],
        60,
    );
    exchange(
        resume(startup, replies(&["{\"sessionId\":\"S\"}"]), s),
        &[
            "{\"id\":3,\"method\":\"Page.enable\",\"params\":{},\"sessionId\":\"S\"}",
            "{\"id\":4,\"method\":\"Runtime.enable\",\"params\":{},\"sessionId\":\"S\"}",
        ],
        10,
    )
}

#[test]
fn page_is_attached_and_enabled() {
    let mut s = session();
    let startup = enabled(&mut s, None);
    assert_eq!(
        resume(startup, replies(&["{}", "{}"]), &mut s),
        Opening::Ready(Page { session_id: "S".to_string() })
    );
}

#[test]
fn viewport_is_set_last() {
    let mut s = session();
    let startup = enabled(&mut s, Some((8, 6)));
    let startup = exchange(
        resume(startup, replies(&["{}", "{}"]), &mut s),
        &["{\"id\":5,\"method\":\"Emulation.setDeviceMetricsOverride\",\"params\":{\"deviceScaleFactor\":1,\"height\":6,\"mobile\":false,\"width\":8},\"sessionId\":\"S\"}"],
        60,
    );
    assert_eq!(
        resume(startup, replies(&["{}"]), &mut s),
        Opening::Ready(Page { session_id: "S".to_string() })
    );
}

#[test]
fn missing_names_are_empty() {
    let mut s = session();
    let startup = match Startup::begin(&mut s, None) {
        Opening::Exchange(startup, _, _) => startup,
        other => panic!("{:?}", other),
    };
    exchange(
        resume(startup, replies(&["{}"]), &mut s),
        &["{\"id\":2,\"method\":\"Target.attachToTarget\",\"params\":{\"flatten\":true,\"targetId\":\"\"}}"],
        60,
    );
}

#[test]
fn start_can_fail() {
    let mut s = session();
    let startup = enabled(&mut s, None);
    assert!(!startup.accepts(&Event::Loaded));
    assert!(!startup.accepts(&replies(&[])));
    assert!(!startup.accepts(&replies(&["{}"])));
    let event = Event::Replies(vec![Reply::Arrived(parse("{\"error\":1}"))]);
    assert_eq!(startup.resume(event, &mut s).unwrap_err().message(), "CDP batch error: 1");
    let startup = enabled(&mut session(), None);
    assert_eq!(
        startup.resume(Event::TransportClosed, &mut s).unwrap_err().message(),
        "transport closed"
    );
    let startup = match Startup::begin(&mut s, None) {
        Opening::Exchange(startup, _, _) => startup,
        other => panic!("{:?}", other),
    };
    assert!(!startup.accepts(&Event::Replies(vec![])));
    assert_eq!(
        startup.resume(Event::Replies(vec![Reply::TimedOut]), &mut s).unwrap_err().message(),
        "command timed out"
    );
}
