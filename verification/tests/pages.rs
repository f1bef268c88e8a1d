use flashwright::error::Error;
use flashwright::frame::decode_ws_frame;
use flashwright::frame::Decoded;
use flashwright::json::Json;
use flashwright::page::position_expr;
use flashwright::page::wait_expr;
use flashwright::page::Page;
use flashwright::page::Position;
use flashwright::session::Delivery;
use flashwright::session::Sent;
use flashwright::session::Session;

fn session() -> Session {
    Session::open(b"HTTP/1.1 101 Switching Protocols\r\n\r\n").unwrap()
}

fn page() -> Page {
    Page { session_id: "S".to_string() }
}

fn parse(text: &str) -> Json {
    Json::parse(text).unwrap()
}

fn commands(sent: &Sent) -> Vec<(String, String)> {
    let mut out = Vec::new();
    let mut at = 0;
    while at < sent.bytes.len() {
        match decode_ws_frame(&sent.bytes[at..]) {
            Decoded::Frame { size, outcome } => {
                let msg = parse(&outcome.unwrap());
                assert_eq!(msg.get_str("sessionId"), Some("S"));
                assert_eq!(msg.get("id").unwrap().as_u64(), Some(sent.ids[out.len()]));
                let params = msg.get("params").unwrap().clone().into_text();
                out.push((msg.get_str("method").unwrap().to_string(), params));
                at += size;
            }
            Decoded::More(_) => panic!("incomplete frame"),
        }
    }
    assert_eq!(out.len(), sent.ids.len());
    out
}

fn one(sent: &Sent) -> (String, String) {
    let mut all = commands(sent);
    assert_eq!(all.len(), 1);
    all.remove(0)
}

fn pair(method: &str, params: &str) -> (String, String) {
    (method.to_string(), params.to_string())
}

#[test]
fn messages_are_enabled() {
    let sent = page().enable(&mut session());
    assert_eq!(commands(&sent), vec![pair("Page.enable", "{}"), pair("Runtime.enable", "{}")]);
}

#[test]
fn viewport_is_set() {
    let sent = page().set_viewport(&mut session(), 800, 600);
    assert_eq!(
        one(&sent),
        pair(
            "Emulation.setDeviceMetricsOverride",
            "{\"deviceScaleFactor\":1,\"height\":600,\"mobile\":false,\"width\":800}"
        )
    );
}

#[test]
fn navigation_subscribes_first() {
    let mut s = session();
    let (token, sent) = page().navigate(&mut s, "http://a/");
    assert_eq!(one(&sent), pair("Page.navigate", "{\"url\":\"http://a/\"}"));
    assert_eq!(
        s.deliver(&parse("{\"method\":\"Page.domContentEventFired\"}")),
        Delivery::Event(vec![token])
    );
}

#[test]
fn expressions_are_evaluated() {
    let sent = page().eval(&mut session(), "1 + \"a\"");
    assert_eq!(
        one(&sent),
        pair(
            "Runtime.evaluate",
            "{\"allowUnsafeEval\":true,\"awaitPromise\":true,\"expression\":\"1 + \\\"a\\\"\",\"returnByValue\":true}"
        )
    );
}

#[test]
fn evaluation_gives_its_value() {
    assert_eq!(Page::evaluated(parse("{\"result\":{\"value\":[1]}}")), Ok(parse("[1]")));
    assert_eq!(Page::evaluated(parse("{\"result\":{}}")), Ok(Json::Null));
    assert_eq!(Page::evaluated(parse("{\"result\":3}")), Ok(Json::Null));
    assert_eq!(Page::evaluated(parse("{}")), Err(Error::NoEvalResult));
    assert_eq!(
        Page::evaluated(parse("{\"result\":{},\"exceptionDetails\":{\"text\":\"bad\"}}"))
            .unwrap_err()
            .message(),
        "eval error: {\"text\":\"bad\"}"
    );
}

#[test]
fn position_is_asked_for_by_selector() {
    let sent = page().get_pos(&mut session(), "a[x=\"1\"]");
    let (method, params) = one(&sent);
    assert_eq!(method, "Runtime.evaluate");
    let params = parse(&params);
    let expr = params.get_str("expression").unwrap();
    let expected = format!(
        r#"(() => {{ const el = document.querySelector({sel:?}); if(!el) return null; el.scrollIntoView({{block:'center',inline:'center'}}); const r = el.getBoundingClientRect(); return [r.x + r.width/2, r.y + r.height/2]; }})()"#,
        sel = "a[x=\"1\"]"
    );
    assert_eq!(expr, expected);
    assert!(expr.contains("querySelector(\"a[x=\\\"1\\\"]\")"));
}

#[test]
fn position_is_two_numbers() {
    let pos = Page::position(parse("[10,20.5,3]")).unwrap();
    assert_eq!(pos.x.into_text(), "10.0");
    assert_eq!(pos.y.into_text(), "20.5");
    let odd = Page::position(parse("[\"a\",null]")).unwrap();
    assert_eq!(odd.x.into_text(), "0.0");
    assert_eq!(odd.y.into_text(), "0.0");
    assert_eq!(Page::position(Json::Null), Err(Error::ElementNotFound));
}

fn at(x: &str, y: &str) -> Position {
    Position { x: parse(x), y: parse(y) }
}

#[test]
fn click_is_move_press_release() {
    let sent = page().click(&mut session(), &at("1.5", "2.0"));
    assert_eq!(
        commands(&sent),
        vec![
            pair("Input.dispatchMouseEvent", "{\"type\":\"mouseMoved\",\"x\":1.5,\"y\":2.0}"),
            pair(
                "Input.dispatchMouseEvent",
                "{\"button\":\"left\",\"clickCount\":1,\"type\":\"mousePressed\",\"x\":1.5,\"y\":2.0}"
            ),
            pair(
                "Input.dispatchMouseEvent",
                "{\"button\":\"left\",\"clickCount\":1,\"type\":\"mouseReleased\",\"x\":1.5,\"y\":2.0}"
            ),
        ]
    );
}

#[test]
fn typing_clicks_and_inserts() {
    let clicked = page().click(&mut session(), &at("0.0", "1.0"));
    let typed = page().type_text(&mut session(), &at("0.0", "1.0"), "hé");
    let all = commands(&typed);
    assert_eq!(all[..3].to_vec(), commands(&clicked));
    assert_eq!(all[3], pair("Input.insertText", "{\"text\":\"hé\"}"));
    assert_eq!(all.len(), 4);
}

#[test]
fn screenshot_formats() {
    assert_eq!(
        one(&page().screenshot(&mut session(), "png")),
        pair("Page.captureScreenshot", "{\"captureBeyondViewport\":false,\"format\":\"png\"}")
    );
    assert_eq!(
        one(&page().screenshot(&mut session(), "jpeg")),
        pair(
            "Page.captureScreenshot",
            "{\"captureBeyondViewport\":false,\"format\":\"jpeg\",\"quality\":80}"
        )
    );
}

#[test]
fn data_is_decoded() {
    assert_eq!(Page::screenshot_data(&parse("{\"data\":\"AQID\"}")), Ok(vec![1, 2, 3]));
    assert_eq!(Page::pdf_data(&parse("{\"data\":\"\"}")), Ok(vec![]));
    assert_eq!(Page::screenshot_data(&parse("{}")), Err(Error::NoScreenshotData));
    assert_eq!(Page::pdf_data(&parse("{\"data\":1}")), Err(Error::NoPdfData));
    assert_eq!(
        Page::pdf_data(&parse("{\"data\":\"A*==\"}")).unwrap_err().message(),
        "Invalid symbol 42, offset 1."
    );
}

#[test]
fn page_is_printed() {
    assert_eq!(one(&page().pdf(&mut session())), pair("Page.printToPDF", "{\"printBackground\":true}"));
}

#[test]
fn selector_is_waited_for() {
    let sent = page().wait_selector(&mut session(), "#a", 1500);
    let params = parse(&one(&sent).1);
    let expected = format!(
        r#"new Promise((resolve) => {{ if(document.querySelector({sel:?})) return resolve(true); const obs = new MutationObserver(() => {{ if(document.querySelector({sel:?})) {{ obs.disconnect(); resolve(true); }} }}); obs.observe(document.documentElement || document.body, {{childList:true, subtree:true}}); setTimeout(() => {{ obs.disconnect(); resolve(false); }}, {timeout}); }})"#,
        sel = "#a",
        timeout = 1500
    );
    assert_eq!(params.get_str("expression"), Some(expected.as_str()));
}

#[test]
fn wait_can_fail() {
    assert_eq!(Page::waited(&parse("true"), "#a"), Ok(()));
    assert_eq!(Page::waited(&Json::Null, "#a"), Ok(()));
    assert_eq!(
        Page::waited(&parse("false"), "#a").unwrap_err().message(),
        "timeout waiting for selector #a"
    );
}

#[test]
fn expressions_hold_the_literal() {
    assert!(position_expr("\"#a\"").starts_with("(() => { const el = document.querySelector(\"#a\"); "));
    assert!(wait_expr("'x'", 9).ends_with("resolve(false); }, 9); })"));
    assert_eq!(wait_expr("'x'", 9).matches("querySelector('x')").count(), 2);
}
