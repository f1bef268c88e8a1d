use flashwright::error::Error;
use flashwright::frame::decode_ws_frame;
use flashwright::frame::Decoded;
use flashwright::json::Json;
use flashwright::session::command_message;
use flashwright::session::head_complete;
use flashwright::session::Delivery;
use flashwright::session::Handshake;
use flashwright::session::Reply;
use flashwright::session::Session;

fn session() -> Session {
    Session::open(b"HTTP/1.1 101 Switching Protocols\r\n\r\n").unwrap()
}

fn parse(text: &str) -> Json {
    Json::parse(text).unwrap()
}

fn arrived(text: &str) -> Reply {
    Reply::Arrived(parse(text))
}

fn messages(bytes: &[u8]) -> Vec<String> {
    let mut out = Vec::new();
    let mut at = 0;
    while at < bytes.len() {
        match decode_ws_frame(&bytes[at..]) {
            Decoded::Frame { size, outcome } => {
                out.push(outcome.unwrap());
                at += size;
            }
            Decoded::More(_) => panic!("incomplete frame"),
        }
    }
    out
}

#[test]
fn handshake_is_for_the_address() {
    let out = Session::connect("ws://127.0.0.1:9222/devtools/browser/abc");
    assert_eq!(out.host_port, "127.0.0.1:9222");
    assert_eq!(
        out.request,
        "GET /devtools/browser/abc HTTP/1.1\r\nHost: 127.0.0.1:9222\r\nUpgrade: websocket\r\n\
         Connection: Upgrade\r\nSec-WebSocket-Key: Zmxhc2h3cmlnaHQtY2RwISE=\r\n\
         Sec-WebSocket-Version: 13\r\n\r\n"
    );
}

#[test]
fn address_without_scheme_or_path() {
    let out = Session::connect("localhost:1");
    assert_eq!(out.host_port, "localhost:1");
    assert!(out.request.starts_with("GET / HTTP/1.1\r\nHost: localhost:1\r\n"));
    assert_eq!(Session::connect("wss://h/p").host_port, "wss:");
    assert_eq!(Session::connect("").host_port, "");
}

#[test]
fn head_ends_with_an_empty_line() {
    assert!(head_complete(b"HTTP/1.1 101\r\n\r\n"));
    assert!(!head_complete(b"HTTP/1.1 101\r\n\r"));
    assert!(!head_complete(b"\r\n\r\nx"));
    assert!(!head_complete(b""));
}

#[test]
fn handshake_can_fail() {
    assert!(matches!(
        Session::open(b"HTTP/1.1 404 Not Found\r\n\r\n"),
        Err(Error::HandshakeFailed)
    ));
}

#[test]
fn commands_are_numbered_from_one() {
    let mut s = session();
    let first = s.send_nowait("A.b", parse("{\"x\":1}"), None);
    assert_eq!(first.ids, vec![1]);
    assert_eq!(
        messages(&first.bytes),
        vec!["{\"id\":1,\"method\":\"A.b\",\"params\":{\"x\":1}}"]
    );
    let second = s.send_nowait("C", parse("{}"), Some("S1"));
    assert_eq!(second.ids, vec![2]);
    assert_eq!(
        messages(&second.bytes),
        vec!["{\"id\":2,\"method\":\"C\",\"params\":{},\"sessionId\":\"S1\"}"]
    );
}

#[test]
fn batch_is_one_frame_for_each_command() {
    let mut s = session();
    let sent = s.send_batch(vec![("A", parse("{}")), ("B", parse("[]"))], Some("S"));
    assert_eq!(sent.ids, vec![1, 2]);
    assert_eq!(
        messages(&sent.bytes),
        vec![
            "{\"id\":1,\"method\":\"A\",\"params\":{},\"sessionId\":\"S\"}",
            "{\"id\":2,\"method\":\"B\",\"params\":[],\"sessionId\":\"S\"}",
        ]
    );
    let none = s.send_batch(Vec::new(), None);
    assert!(none.ids.is_empty() && none.bytes.is_empty());
}

#[test]
fn message_reads_back() {
    let mut s = session();
    let sent = s.send_nowait("M", parse("{\"p\":[1]}"), Some("sid"));
    let msg = parse(&messages(&sent.bytes)[0]);
    assert_eq!(msg.get("id").unwrap().as_u64(), Some(sent.ids[0]));
    assert_eq!(msg.get_str("method"), Some("M"));
    assert_eq!(msg.get("params"), Some(&parse("{\"p\":[1]}")));
    assert_eq!(msg.get_str("sessionId"), Some("sid"));
}

#[test]
fn answer_is_delivered_once() {
    let mut s = session();
    s.send_batch(vec![("A", parse("{}")), ("B", parse("{}"))], None);
    assert_eq!(s.deliver(&parse("{\"id\":2,\"result\":{}}")), Delivery::Reply(2));
    assert_eq!(s.deliver(&parse("{\"id\":2}")), Delivery::Nobody);
    assert_eq!(s.deliver(&parse("{\"id\":9}")), Delivery::Nobody);
    assert_eq!(s.deliver(&parse("{\"id\":1}")), Delivery::Reply(1));
}

#[test]
fn subscribers_are_told_once_and_the_last_first() {
    let mut s = session();
    let a = s.subscribe_event("E");
    let b = s.subscribe_event("F");
    let c = s.subscribe_event("E");
    assert_eq!(s.deliver(&parse("{\"method\":\"E\"}")), Delivery::Event(vec![c, a]));
    assert_eq!(s.deliver(&parse("{\"method\":\"E\"}")), Delivery::Event(vec![]));
    assert_eq!(s.deliver(&parse("{\"method\":\"F\"}")), Delivery::Event(vec![b]));
}

#[test]
fn message_with_number_is_no_event() {
    let mut s = session();
    let token = s.subscribe_event("E");
    assert_eq!(s.deliver(&parse("{\"id\":5,\"method\":\"E\"}")), Delivery::Nobody);
    assert_eq!(
        s.deliver(&parse("{\"id\":\"5\",\"method\":\"E\"}")),
        Delivery::Event(vec![token])
    );
    assert_eq!(s.deliver(&parse("{\"method\":3}")), Delivery::Nobody);
    assert_eq!(s.deliver(&parse("[]")), Delivery::Nobody);
}

#[test]
fn texts_that_are_no_json_are_for_nobody() {
    let mut s = session();
    s.send_nowait("A", parse("{}"), None);
    assert_eq!(s.receive("not json"), None);
    assert_eq!(
        s.receive("{\"id\":1,\"result\":7}"),
        Some((Delivery::Reply(1), parse("{\"id\":1,\"result\":7}")))
    );
}

#[test]
fn command_comes_to_its_result() {
    assert_eq!(Session::send("A", arrived("{\"id\":1,\"result\":{\"x\":1}}")), Ok(parse("{\"x\":1}")));
    assert_eq!(Session::send("A", arrived("{\"id\":1}")), Ok(Json::Null));
    assert_eq!(
        Session::send("A", arrived("{\"id\":1,\"error\":{\"code\":-1}}")).unwrap_err().message(),
        "CDP error on A: {\"code\":-1}"
    );
    assert_eq!(Session::send("A", Reply::TimedOut), Err(Error::CommandTimedOut));
    assert_eq!(Session::send("A", Reply::Lost), Err(Error::ReplyLost));
}

#[test]
fn batch_comes_to_all_results() {
    assert_eq!(
        Session::await_all(vec![arrived("{\"result\":1}"), arrived("{}")]),
        Ok(vec![parse("1"), Json::Null])
    );
    assert_eq!(Session::await_all(Vec::new()), Ok(Vec::new()));
}

#[test]
fn first_failure_decides() {
    let replies = vec![
        arrived("{\"result\":1}"),
        arrived("{\"error\":\"no\"}"),
        Reply::TimedOut,
    ];
    assert_eq!(
        Session::await_all(replies).unwrap_err().message(),
        "CDP batch error: \"no\""
    );
    assert_eq!(Session::await_all(vec![Reply::TimedOut]), Err(Error::BatchTimedOut));
    assert_eq!(
        Session::await_all(vec![Reply::Lost, arrived("{\"error\":1}")]),
        Err(Error::ReplyLost)
    );
}

#[test]
fn numbers_are_distinct() {
    let mut s = session();
    let mut seen = Vec::new();
    for _ in 0..50 {
        seen.extend(s.send_batch(vec![("A", Json::Null), ("B", Json::Null)], None).ids);
    }
    let expected: Vec<u64> = (1..=100).collect();
    assert_eq!(seen, expected);
}

#[test]
fn sender_keeps_waiting() {
    let mut s = session();
    s.send_nowait("A", Json::Null, None);
    s.deliver(&parse("{\"method\":\"E\"}"));
    s.send_nowait("B", Json::Null, None);
    s.deliver(&parse("{\"id\":2}"));
    assert_eq!(s.deliver(&parse("{\"id\":1}")), Delivery::Reply(1));
}

#[test]
fn handshake_carries_the_key() {
    let out = Handshake::new("ws://h:1/p", "KEY");
    assert_eq!(out.host_port, "h:1");
    assert!(out.request.contains("\r\nSec-WebSocket-Key: KEY\r\n"));
    assert!(out.request.starts_with("GET /p HTTP/1.1\r\n"));
}

#[test]
fn message_is_an_object() {
    assert_eq!(
        command_message(7, "M", Json::Null, None).into_text(),
        "{\"id\":7,\"method\":\"M\",\"params\":null}"
    );
}

#[test]
fn every_command_is_waited_for() {
    let ok = || arrived("{}");
    assert!(Session::awaited(&vec![ok(), ok()], 2));
    assert!(Session::awaited(&vec![ok(), Reply::TimedOut], 3));
    assert!(Session::awaited(&vec![arrived("{\"error\":1}")], 2));
    assert!(!Session::awaited(&vec![ok()], 2));
    assert!(!Session::awaited(&vec![Reply::Lost, ok()], 3));
    assert!(!Session::awaited(&vec![], 1));
    assert!(!Session::awaited(&vec![ok(), ok(), Reply::Lost], 2));
}

#[test]
fn batch_needs_every_answer() {
    assert!(Session::await_all(vec![arrived("{}"), arrived("{}")]).is_ok());
    assert!(Session::await_all(vec![arrived("{}"), arrived("{\"error\":0}")]).is_err());
}
