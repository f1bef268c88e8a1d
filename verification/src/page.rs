//! The page that the browser shows.
use vstd::prelude::*;

use crate::codec::base64_bytes;
use crate::codec::base64_decode;
use crate::codec::encodable;
use crate::codec::quote;
use crate::codec::quoted;
use crate::error::told;
use crate::error::Error;
use crate::json::float_or_zero;
use crate::json::json_text;
use crate::json::object;
use crate::json::Json;
use crate::json::JsonView;
use crate::json::Members;
use crate::session::messages_view;
use crate::session::Sent;
use crate::session::Session;
use crate::text::decimal;
use crate::text::decimal_text;
use crate::text::text_eq;

verus! {

/// A page, by the name of its session.
#[derive(Debug, PartialEq, Eq)]
pub struct Page {
    pub session_id: String,
}

/// A command without parameters.
pub open spec fn bare(method: Seq<char>) -> (Seq<char>, JsonView) {
    (method, object(Seq::empty()))
}

/// The command that sets the size of the viewport.
pub open spec fn viewport_command(w: u32, h: u32) -> (Seq<char>, JsonView) {
    (
        "Emulation.setDeviceMetricsOverride"@,
        object(
            seq![
                ("width"@, JsonView::Integer(w as int)),
                ("height"@, JsonView::Integer(h as int)),
                ("deviceScaleFactor"@, JsonView::Integer(1)),
                ("mobile"@, JsonView::Bool(false)),
            ],
        ),
    )
}

/// The command that goes to an address.
pub open spec fn navigate_command(url: Seq<char>) -> (Seq<char>, JsonView) {
    ("Page.navigate"@, object(seq![("url"@, JsonView::Text(url))]))
}

/// The command that evaluates an expression.
pub open spec fn eval_command(expr: Seq<char>) -> (Seq<char>, JsonView) {
    (
        "Runtime.evaluate"@,
        object(
            seq![
                ("expression"@, JsonView::Text(expr)),
                ("returnByValue"@, JsonView::Bool(true)),
                ("awaitPromise"@, JsonView::Bool(true)),
                ("allowUnsafeEval"@, JsonView::Bool(true)),
            ],
        ),
    )
}

/// The command that moves the mouse.
pub open spec fn move_command(x: JsonView, y: JsonView) -> (Seq<char>, JsonView) {
    (
        "Input.dispatchMouseEvent"@,
        object(seq![("type"@, JsonView::Text("mouseMoved"@)), ("x"@, x), ("y"@, y)]),
    )
}

/// The command that presses or releases the left button.
pub open spec fn button_command(kind: Seq<char>, x: JsonView, y: JsonView) -> (
    Seq<char>,
    JsonView,
) {
    (
        "Input.dispatchMouseEvent"@,
        object(
            seq![
                ("type"@, JsonView::Text(kind)),
                ("x"@, x),
                ("y"@, y),
                ("button"@, JsonView::Text("left"@)),
                ("clickCount"@, JsonView::Integer(1)),
            ],
        ),
    )
}

/// The commands that click at a place.
pub open spec fn click_commands(x: JsonView, y: JsonView) -> Seq<(Seq<char>, JsonView)> {
    seq![
        move_command(x, y),
        button_command("mousePressed"@, x, y),
        button_command("mouseReleased"@, x, y),
    ]
}

/// The commands that click at a place and type a text there.
pub open spec fn type_commands(x: JsonView, y: JsonView, text: Seq<char>) -> Seq<
    (Seq<char>, JsonView),
> {
    click_commands(x, y).push(
        ("Input.insertText"@, object(seq![("text"@, JsonView::Text(text))])),
    )
}

/// The command that takes a screenshot. A JPEG image has a quality.
pub open spec fn screenshot_command(format: Seq<char>) -> (Seq<char>, JsonView) {
    let head = seq![
        ("format"@, JsonView::Text(format)),
        ("captureBeyondViewport"@, JsonView::Bool(false)),
    ];
    (
        "Page.captureScreenshot"@,
        if format == "jpeg"@ {
            object(head.push(("quality"@, JsonView::Integer(80))))
        } else {
            object(head)
        },
    )
}

/// The command that prints the page.
pub open spec fn pdf_command() -> (Seq<char>, JsonView) {
    ("Page.printToPDF"@, object(seq![("printBackground"@, JsonView::Bool(true))]))
}

/// The expression that scrolls to the element that a selector, given as a string
/// literal, matches and gives the place of its middle.
pub open spec fn position_script_of(literal: Seq<char>) -> Seq<char> {
    "(() => { const el = document.querySelector("@ + literal
        + "); if(!el) return null; el.scrollIntoView({block:'center',inline:'center'}); const r = el.getBoundingClientRect(); return [r.x + r.width/2, r.y + r.height/2]; })()"@
}

/// The expression that scrolls to the element that a selector matches and gives
/// the place of its middle.
pub open spec fn position_script(selector: Seq<char>) -> Seq<char> {
    position_script_of(quoted(selector))
}

/// The expression that waits until a selector, given as a string literal, matches
/// an element, and gives `false` where none came to match in time.
pub open spec fn wait_script_of(literal: Seq<char>, timeout_ms: u64) -> Seq<char> {
    "new Promise((resolve) => { if(document.querySelector("@ + literal
        + ")) return resolve(true); const obs = new MutationObserver(() => { if(document.querySelector("@
        + literal
        + ")) { obs.disconnect(); resolve(true); } }); obs.observe(document.documentElement || document.body, {childList:true, subtree:true}); setTimeout(() => { obs.disconnect(); resolve(false); }, "@
        + decimal(timeout_ms as nat) + "); })"@
}

/// The expression that waits until a selector matches an element.
pub open spec fn wait_script(selector: Seq<char>, timeout_ms: u64) -> Seq<char> {
    wait_script_of(quoted(selector), timeout_ms)
}

/// The value in the result of an evaluation.
pub open spec fn evaluation(result: JsonView) -> Result<JsonView, Seq<char>> {
    match result.get("exceptionDetails"@) {
        Some(details) => Err("eval error: "@ + json_text(details)),
        None => match result.get("result"@) {
            Some(inner) => match inner.get("value"@) {
                Some(value) => Ok(value),
                None => Ok(JsonView::Null),
            },
            None => Err("no eval result"@),
        },
    }
}

/// Tells whether the value of a position is a list that is too short to hold one.
pub open spec fn short_position(value: JsonView) -> bool {
    match value.as_array() {
        Some(items) => items.len() < 2,
        None => false,
    }
}

/// The place that the value of a position holds.
pub open spec fn position(value: JsonView) -> Result<(JsonView, JsonView), Seq<char>> {
    match value.as_array() {
        Some(items) => Ok((float_or_zero(items[0]), float_or_zero(items[1]))),
        None => Err("element not found or not visible"@),
    }
}

/// The bytes in the data of a result.
pub open spec fn data(result: JsonView, none: Seq<char>) -> Result<Seq<u8>, Seq<char>> {
    match result.get_str("data"@) {
        Some(text) => base64_bytes(text),
        None => Err(none),
    }
}

/// What a wait comes to.
pub open spec fn selected(value: JsonView, selector: Seq<char>) -> Result<(), Seq<char>> {
    if value == JsonView::Bool(false) {
        Err("timeout waiting for selector "@ + selector)
    } else {
        Ok(())
    }
}

/// The place where an element stands.
#[derive(Debug, PartialEq)]
pub struct Position {
    pub x: Json,
    pub y: Json,
}

impl View for Position {
    type V = (JsonView, JsonView);

    open spec fn view(&self) -> (JsonView, JsonView) {
        (self.x@, self.y@)
    }
}

fn eval_params(expr: &str) -> (out: Json)
    ensures
        out@ == eval_command(expr@).1,
{
    let entries = Members::new().with("expression", Json::from_text(expr)).with(
        "returnByValue",
        Json::Bool(true),
    ).with("awaitPromise", Json::Bool(true)).with("allowUnsafeEval", Json::Bool(true));
    assert(entries@ =~= seq![
        ("expression"@, JsonView::Text(expr@)),
        ("returnByValue"@, JsonView::Bool(true)),
        ("awaitPromise"@, JsonView::Bool(true)),
        ("allowUnsafeEval"@, JsonView::Bool(true)),
    ]);
    entries.object()
}

fn move_params(pos: &Position) -> (out: Json)
    ensures
        out@ == move_command(pos.x@, pos.y@).1,
{
    let entries = Members::new().with("type", Json::from_text("mouseMoved")).with(
        "x",
        pos.x.clone(),
    ).with("y", pos.y.clone());
    assert(entries@ =~= seq![
        ("type"@, JsonView::Text("mouseMoved"@)),
        ("x"@, pos.x@),
        ("y"@, pos.y@),
    ]);
    entries.object()
}

fn button_params(kind: &str, pos: &Position) -> (out: Json)
    ensures
        out@ == button_command(kind@, pos.x@, pos.y@).1,
{
    let entries = Members::new().with("type", Json::from_text(kind)).with(
        "x",
        pos.x.clone(),
    ).with("y", pos.y.clone()).with("button", Json::from_text("left")).with(
        "clickCount",
        Json::from_number(1),
    );
    assert(entries@ =~= seq![
        ("type"@, JsonView::Text(kind@)),
        ("x"@, pos.x@),
        ("y"@, pos.y@),
        ("button"@, JsonView::Text("left"@)),
        ("clickCount"@, JsonView::Integer(1)),
    ]);
    entries.object()
}

fn click_messages(pos: &Position) -> (out: Vec<(&'static str, Json)>)
    ensures
        messages_view(out@) == click_commands(pos.x@, pos.y@),
{
    let mut out: Vec<(&'static str, Json)> = Vec::new();
    out.push(("Input.dispatchMouseEvent", move_params(pos)));
    out.push(("Input.dispatchMouseEvent", button_params("mousePressed", pos)));
    out.push(("Input.dispatchMouseEvent", button_params("mouseReleased", pos)));
    assert(messages_view(out@) =~= click_commands(pos.x@, pos.y@));
    out
}

/// The expression that scrolls to the element that a selector, given as a string
/// literal, matches and gives the place of its middle.
pub fn position_expr(literal: &str) -> (expr: String)
    ensures
        expr@ == position_script_of(literal@),
{
    let mut expr = "(() => { const el = document.querySelector(".to_owned();
    expr.append(literal);
    expr.append(
        "); if(!el) return null; el.scrollIntoView({block:'center',inline:'center'}); const r = el.getBoundingClientRect(); return [r.x + r.width/2, r.y + r.height/2]; })()",
    );
    expr
}

/// The expression that waits until a selector, given as a string literal, matches
/// an element, and gives `false` where none came to match in time.
pub fn wait_expr(literal: &str, timeout_ms: u64) -> (expr: String)
    ensures
        expr@ == wait_script_of(literal@, timeout_ms),
{
    let timeout = decimal_text(timeout_ms);
    let mut expr = "new Promise((resolve) => { if(document.querySelector(".to_owned();
    expr.append(literal);
    expr.append(
        ")) return resolve(true); const obs = new MutationObserver(() => { if(document.querySelector(",
    );
    expr.append(literal);
    expr.append(
        ")) { obs.disconnect(); resolve(true); } }); obs.observe(document.documentElement || document.body, {childList:true, subtree:true}); setTimeout(() => { obs.disconnect(); resolve(false); }, ",
    );
    expr.append(timeout.as_str());
    expr.append("); })");
    expr
}

impl Page {
    /// Turns on the messages about the page and about evaluations.
    pub fn enable(&self, s: &mut Session) -> (out: Sent)
        ensures
            final(s)@ == old(s)@.after(2),
            out.carries(
                old(s)@,
                seq![bare("Page.enable"@), bare("Runtime.enable"@)],
                Some(self.session_id@),
            ),
    {
        let mut messages: Vec<(&str, Json)> = Vec::new();
        messages.push(("Page.enable", Members::new().object()));
        messages.push(("Runtime.enable", Members::new().object()));
        assert(messages_view(messages@) =~= seq![bare("Page.enable"@), bare("Runtime.enable"@)]);
        s.send_batch(messages, Some(self.session_id.as_str()))
    }

    /// Sets the size of the viewport.
    pub fn set_viewport(&self, s: &mut Session, w: u32, h: u32) -> (out: Sent)
        ensures
            final(s)@ == old(s)@.after(1),
            out.carries(old(s)@, seq![viewport_command(w, h)], Some(self.session_id@)),
    {
        let entries = Members::new().with("width", Json::from_number(w as u64)).with(
            "height",
            Json::from_number(h as u64),
        ).with("deviceScaleFactor", Json::from_number(1)).with("mobile", Json::Bool(false));
        assert(entries@ =~= seq![
            ("width"@, JsonView::Integer(w as int)),
            ("height"@, JsonView::Integer(h as int)),
            ("deviceScaleFactor"@, JsonView::Integer(1)),
            ("mobile"@, JsonView::Bool(false)),
        ]);
        s.send_nowait(
            "Emulation.setDeviceMetricsOverride",
            entries.object(),
            Some(self.session_id.as_str()),
        )
    }

    /// Goes to an address: first subscribes to the event that tells that the
    /// document is there, then sends the command.
    pub fn navigate(&self, s: &mut Session, url: &str) -> (out: (u64, Sent))
        ensures
            out.0 == old(s)@.next_token,
            final(s)@ == old(s)@.subscribed("Page.domContentEventFired"@).after(1),
            out.1.carries(
                old(s)@.subscribed("Page.domContentEventFired"@),
                seq![navigate_command(url@)],
                Some(self.session_id@),
            ),
    {
        let token: u64 = s.subscribe_event("Page.domContentEventFired");
        let entries = Members::new().with("url", Json::from_text(url));
        assert(entries@ =~= seq![("url"@, JsonView::Text(url@))]);
        let sent = s.send_nowait(
            "Page.navigate",
            entries.object(),
            Some(self.session_id.as_str()),
        );
        (token, sent)
    }

    /// Evaluates an expression.
    pub fn eval(&self, s: &mut Session, expr: &str) -> (out: Sent)
        ensures
            final(s)@ == old(s)@.after(1),
            out.carries(old(s)@, seq![eval_command(expr@)], Some(self.session_id@)),
    {
        s.send_nowait("Runtime.evaluate", eval_params(expr), Some(self.session_id.as_str()))
    }

    /// The value in the result of an evaluation.
    pub fn evaluated(result: Json) -> (out: Result<Json, Error>)
        ensures
            told(out) == evaluation(result@),
    {
        let raised = result.get("exceptionDetails").is_some();
        if raised {
            return match result.take("exceptionDetails") {
                Some(details) => Err(Error::Evaluation(details.into_text())),
                None => Err(Error::NoEvalResult),
            };
        }
        match result.take("result") {
            Some(inner) => match inner.take("value") {
                Some(value) => Ok(value),
                None => Ok(Json::Null),
            },
            None => Err(Error::NoEvalResult),
        }
    }

    /// Clicks at a place.
    pub fn click(&self, s: &mut Session, pos: &Position) -> (out: Sent)
        ensures
            final(s)@ == old(s)@.after(3),
            out.carries(old(s)@, click_commands(pos.x@, pos.y@), Some(self.session_id@)),
    {
        let messages = click_messages(pos);
        assert(messages@.len() == messages_view(messages@).len());
        s.send_batch(messages, Some(self.session_id.as_str()))
    }

    /// Clicks at a place and types a text there.
    pub fn type_text(&self, s: &mut Session, pos: &Position, text: &str) -> (out: Sent)
        ensures
            final(s)@ == old(s)@.after(4),
            out.carries(old(s)@, type_commands(pos.x@, pos.y@, text@), Some(self.session_id@)),
    {
        let mut messages = click_messages(pos);
        let entries = Members::new().with("text", Json::from_text(text));
        assert(entries@ =~= seq![("text"@, JsonView::Text(text@))]);
        assert(messages@.len() == messages_view(messages@).len());
        let ghost before = messages@;
        let params = entries.object();
        messages.push(("Input.insertText", params));
        assert(messages_view(messages@) =~= messages_view(before).push(
            ("Input.insertText"@, params@),
        ));
        s.send_batch(messages, Some(self.session_id.as_str()))
    }

    /// Asks for the place of the element that a selector matches.
    pub fn get_pos(&self, s: &mut Session, selector: &str) -> (out: Sent)
        ensures
            final(s)@ == old(s)@.after(1),
            out.carries(
                old(s)@,
                seq![eval_command(position_script(selector@))],
                Some(self.session_id@),
            ),
    {
        let literal = quote(selector);
        let expr = position_expr(literal.as_str());
        self.eval(s, expr.as_str())
    }

    /// The place that the value of a position holds.
    pub fn position(value: Json) -> (out: Result<Position, Error>)
        requires
            !short_position(value@),
        ensures
            told(out) == position(value@),
    {
        match value.as_array() {
            Some(items) => Ok(
                Position {
                    x: items[0].clone().into_float(),
                    y: items[1].clone().into_float(),
                },
            ),
            None => Err(Error::ElementNotFound),
        }
    }

    /// Takes a screenshot.
    pub fn screenshot(&self, s: &mut Session, format: &str) -> (out: Sent)
        ensures
            final(s)@ == old(s)@.after(1),
            out.carries(old(s)@, seq![screenshot_command(format@)], Some(self.session_id@)),
    {
        let head = Members::new().with("format", Json::from_text(format)).with(
            "captureBeyondViewport",
            Json::Bool(false),
        );
        assert(head@ =~= seq![
            ("format"@, JsonView::Text(format@)),
            ("captureBeyondViewport"@, JsonView::Bool(false)),
        ]);
        let params = if text_eq(format, "jpeg") {
            head.with("quality", Json::from_number(80)).object()
        } else {
            head.object()
        };
        s.send_nowait("Page.captureScreenshot", params, Some(self.session_id.as_str()))
    }

    /// The image in the result of a screenshot.
    pub fn screenshot_data(result: &Json) -> (out: Result<Vec<u8>, Error>)
        ensures
            told(out) == data(result@, "no screenshot data"@),
            out matches Ok(bytes) ==> encodable(bytes@.len()),
    {
        match result.get_str("data") {
            Some(text) => decoded(text),
            None => Err(Error::NoScreenshotData),
        }
    }

    /// Prints the page.
    pub fn pdf(&self, s: &mut Session) -> (out: Sent)
        ensures
            final(s)@ == old(s)@.after(1),
            out.carries(old(s)@, seq![pdf_command()], Some(self.session_id@)),
    {
        let entries = Members::new().with("printBackground", Json::Bool(true));
        assert(entries@ =~= seq![("printBackground"@, JsonView::Bool(true))]);
        s.send_nowait("Page.printToPDF", entries.object(), Some(self.session_id.as_str()))
    }

    /// The document in the result of a print.
    pub fn pdf_data(result: &Json) -> (out: Result<Vec<u8>, Error>)
        ensures
            told(out) == data(result@, "no pdf data"@),
            out matches Ok(bytes) ==> encodable(bytes@.len()),
    {
        match result.get_str("data") {
            Some(text) => decoded(text),
            None => Err(Error::NoPdfData),
        }
    }

    /// Waits until a selector matches an element.
    pub fn wait_selector(&self, s: &mut Session, selector: &str, timeout_ms: u64) -> (out: Sent)
        ensures
            final(s)@ == old(s)@.after(1),
            out.carries(
                old(s)@,
                seq![eval_command(wait_script(selector@, timeout_ms))],
                Some(self.session_id@),
            ),
    {
        let literal = quote(selector);
        let expr = wait_expr(literal.as_str(), timeout_ms);
        self.eval(s, expr.as_str())
    }

    /// What a wait comes to.
    pub fn waited(value: &Json, selector: &str) -> (out: Result<(), Error>)
        ensures
            told(out) == selected(value@, selector@),
    {
        if value.is_false() {
            return Err(Error::SelectorTimeout(selector.to_owned()));
        }
        Ok(())
    }
}

fn decoded(text: &str) -> (out: Result<Vec<u8>, Error>)
    ensures
        told(out) == base64_bytes(text@),
        out matches Ok(bytes) ==> encodable(bytes@.len()),
{
    match base64_decode(text) {
        Ok(bytes) => Ok(bytes),
        Err(message) => Err(Error::Other(message)),
    }
}

} // verus!
