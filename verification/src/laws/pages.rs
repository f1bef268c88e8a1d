//! Promises on the commands about a page, and on what their results say.
use vstd::prelude::*;

use crate::codec::base64_bytes;
use crate::codec::quoted;
use crate::json::float_or_zero;
use crate::json::json_float;
use crate::json::json_text;
use crate::json::JsonView;
use crate::laws::documents::lemma_object_1;
use crate::laws::documents::lemma_object_2;
use crate::laws::documents::lemma_object_3;
use crate::laws::documents::lemma_object_4;
use crate::laws::documents::lemma_object_5;
use crate::page::bare;
use crate::page::button_command;
use crate::page::click_commands;
use crate::page::data;
use crate::page::eval_command;
use crate::page::evaluation;
use crate::page::move_command;
use crate::page::navigate_command;
use crate::page::pdf_command;
use crate::page::position;
use crate::page::position_script;
use crate::page::screenshot_command;
use crate::page::selected;
use crate::page::short_position;
use crate::page::type_commands;
use crate::page::viewport_command;
use crate::page::wait_script;
use crate::page::Position;
use crate::text::decimal;

verus! {

/// The parameters of an evaluation.
pub open spec fn evaluate_params(expr: Seq<char>) -> JsonView {
    JsonView::Object(
        map![
            "expression"@ => JsonView::Text(expr),
            "returnByValue"@ => JsonView::Bool(true),
            "awaitPromise"@ => JsonView::Bool(true),
            "allowUnsafeEval"@ => JsonView::Bool(true),
        ],
    )
}

/// The parameters of a size.
pub open spec fn size_params(w: u32, h: u32) -> JsonView {
    JsonView::Object(
        map![
            "width"@ => JsonView::Integer(w as int),
            "height"@ => JsonView::Integer(h as int),
            "deviceScaleFactor"@ => JsonView::Integer(1),
            "mobile"@ => JsonView::Bool(false),
        ],
    )
}

/// The parameters of a move of the mouse.
pub open spec fn move_params(x: JsonView, y: JsonView) -> JsonView {
    JsonView::Object(map!["type"@ => JsonView::Text("mouseMoved"@), "x"@ => x, "y"@ => y])
}

/// The parameters of a press or a release of the left button.
pub open spec fn button_params(kind: Seq<char>, x: JsonView, y: JsonView) -> JsonView {
    JsonView::Object(
        map![
            "type"@ => JsonView::Text(kind),
            "x"@ => x,
            "y"@ => y,
            "button"@ => JsonView::Text("left"@),
            "clickCount"@ => JsonView::Integer(1),
        ],
    )
}

/// The parameters of a screenshot: a JPEG image has a quality, and no other.
pub open spec fn screenshot_params(format: Seq<char>) -> JsonView {
    if format == "jpeg"@ {
        JsonView::Object(
            map![
                "format"@ => JsonView::Text(format),
                "captureBeyondViewport"@ => JsonView::Bool(false),
                "quality"@ => JsonView::Integer(80),
            ],
        )
    } else {
        JsonView::Object(
            map![
                "format"@ => JsonView::Text(format),
                "captureBeyondViewport"@ => JsonView::Bool(false),
            ],
        )
    }
}

/// The commands with one document of parameters are these.
pub proof fn law_page_commands(
    w: u32,
    h: u32,
    url: Seq<char>,
    expr: Seq<char>,
    format: Seq<char>,
    method: Seq<char>,
)
    ensures
        bare(method) == (method, JsonView::Object(Map::empty())),
        viewport_command(w, h) == ("Emulation.setDeviceMetricsOverride"@, size_params(w, h)),
        navigate_command(url) == (
            "Page.navigate"@,
            JsonView::Object(map!["url"@ => JsonView::Text(url)]),
        ),
        eval_command(expr) == ("Runtime.evaluate"@, evaluate_params(expr)),
        screenshot_command(format) == ("Page.captureScreenshot"@, screenshot_params(format)),
        pdf_command() == (
            "Page.printToPDF"@,
            JsonView::Object(map!["printBackground"@ => JsonView::Bool(true)]),
        ),
{
    lemma_object_4(
        "width"@,
        JsonView::Integer(w as int),
        "height"@,
        JsonView::Integer(h as int),
        "deviceScaleFactor"@,
        JsonView::Integer(1),
        "mobile"@,
        JsonView::Bool(false),
    );
    lemma_object_1("url"@, JsonView::Text(url));
    lemma_object_4(
        "expression"@,
        JsonView::Text(expr),
        "returnByValue"@,
        JsonView::Bool(true),
        "awaitPromise"@,
        JsonView::Bool(true),
        "allowUnsafeEval"@,
        JsonView::Bool(true),
    );
    lemma_object_1("printBackground"@, JsonView::Bool(true));
    lemma_object_2(
        "format"@,
        JsonView::Text(format),
        "captureBeyondViewport"@,
        JsonView::Bool(false),
    );
    lemma_object_3(
        "format"@,
        JsonView::Text(format),
        "captureBeyondViewport"@,
        JsonView::Bool(false),
        "quality"@,
        JsonView::Integer(80),
    );
    let head = seq![
        ("format"@, JsonView::Text(format)),
        ("captureBeyondViewport"@, JsonView::Bool(false)),
    ];
    assert(head.push(("quality"@, JsonView::Integer(80))) =~= seq![
        ("format"@, JsonView::Text(format)),
        ("captureBeyondViewport"@, JsonView::Bool(false)),
        ("quality"@, JsonView::Integer(80)),
    ]);
}

/// A click moves the mouse to a place, presses the left button there and releases it
/// there; typing does the same and then inserts the text.
pub proof fn law_click_commands(x: JsonView, y: JsonView, text: Seq<char>)
    ensures
        click_commands(x, y) == seq![
            ("Input.dispatchMouseEvent"@, move_params(x, y)),
            ("Input.dispatchMouseEvent"@, button_params("mousePressed"@, x, y)),
            ("Input.dispatchMouseEvent"@, button_params("mouseReleased"@, x, y)),
        ],
        type_commands(x, y, text) == seq![
            ("Input.dispatchMouseEvent"@, move_params(x, y)),
            ("Input.dispatchMouseEvent"@, button_params("mousePressed"@, x, y)),
            ("Input.dispatchMouseEvent"@, button_params("mouseReleased"@, x, y)),
            ("Input.insertText"@, JsonView::Object(map!["text"@ => JsonView::Text(text)])),
        ],
{
    lemma_object_3("type"@, JsonView::Text("mouseMoved"@), "x"@, x, "y"@, y);
    lemma_object_5(
        "type"@,
        JsonView::Text("mousePressed"@),
        "x"@,
        x,
        "y"@,
        y,
        "button"@,
        JsonView::Text("left"@),
        "clickCount"@,
        JsonView::Integer(1),
    );
    lemma_object_5(
        "type"@,
        JsonView::Text("mouseReleased"@),
        "x"@,
        x,
        "y"@,
        y,
        "button"@,
        JsonView::Text("left"@),
        "clickCount"@,
        JsonView::Integer(1),
    );
    lemma_object_1("text"@, JsonView::Text(text));
    assert(move_command(x, y) == ("Input.dispatchMouseEvent"@, move_params(x, y)));
    assert(button_command("mousePressed"@, x, y) == (
        "Input.dispatchMouseEvent"@,
        button_params("mousePressed"@, x, y),
    ));
    assert(type_commands(x, y, text) =~= seq![
        ("Input.dispatchMouseEvent"@, move_params(x, y)),
        ("Input.dispatchMouseEvent"@, button_params("mousePressed"@, x, y)),
        ("Input.dispatchMouseEvent"@, button_params("mouseReleased"@, x, y)),
        ("Input.insertText"@, JsonView::Object(map!["text"@ => JsonView::Text(text)])),
    ]);
}

/// The expression for the place of an element asks the page for the selector as it
/// was given, quoted, and for nothing else.
pub proof fn law_position_expression(selector: Seq<char>)
    ensures
        position_script(selector) == "(() => { const el = document.querySelector("@ + quoted(
            selector,
        )
            + "); if(!el) return null; el.scrollIntoView({block:'center',inline:'center'}); const r = el.getBoundingClientRect(); return [r.x + r.width/2, r.y + r.height/2]; })()"@,
{
}

/// The end of the expression that waits: it gives up after so many milliseconds.
pub open spec fn gives_up_after(ms: u64) -> Seq<char> {
    decimal(ms as nat) + "); })"@
}

/// The expression that waits asks the page for the selector as it was given, quoted,
/// at once and whenever the page changes, and gives up after the timeout that was
/// asked for.
pub proof fn law_wait_expression(selector: Seq<char>, ms: u64)
    ensures
        wait_script(selector, ms) == "new Promise((resolve) => { if(document.querySelector("@
            + quoted(selector)
            + ")) return resolve(true); const obs = new MutationObserver(() => { if(document.querySelector("@
            + quoted(selector)
            + ")) { obs.disconnect(); resolve(true); } }); obs.observe(document.documentElement || document.body, {childList:true, subtree:true}); setTimeout(() => { obs.disconnect(); resolve(false); }, "@
            + gives_up_after(ms),
{
    let front = "new Promise((resolve) => { if(document.querySelector("@ + quoted(selector)
        + ")) return resolve(true); const obs = new MutationObserver(() => { if(document.querySelector("@
        + quoted(selector)
        + ")) { obs.disconnect(); resolve(true); } }); obs.observe(document.documentElement || document.body, {childList:true, subtree:true}); setTimeout(() => { obs.disconnect(); resolve(false); }, "@;
    assert(front + decimal(ms as nat) + "); })"@ =~= front + (decimal(ms as nat) + "); })"@));
}

/// An evaluation gives the value that the browser gives, nothing where it gives
/// none, and fails where it raised an exception or gives no result at all.
pub proof fn law_evaluation_gives_its_value(result: JsonView, inner: JsonView)
    ensures
        result.get("exceptionDetails"@) is None && result.get("result"@) == Some(inner)
            ==> evaluation(result) == Ok::<JsonView, Seq<char>>(
            match inner.get("value"@) {
                Some(value) => value,
                None => JsonView::Null,
            },
        ),
        result.get("exceptionDetails"@) is None && result.get("result"@) is None ==> evaluation(
            result,
        ) == Err::<JsonView, Seq<char>>("no eval result"@),
        result.get("exceptionDetails"@) is Some ==> evaluation(result) == Err::<
            JsonView,
            Seq<char>,
        >("eval error: "@ + json_text(result.get("exceptionDetails"@)->Some_0)),
{
}

/// The place of an element is the pair of the first two items of a list, the first
/// of them from the left and the second from the top, each as a floating point
/// number; anything but a list means that there is no such element.
pub proof fn law_position_is_a_pair(items: Seq<JsonView>, value: JsonView)
    ensures
        items.len() >= 2 ==> !short_position(JsonView::List(items)) && position(
            JsonView::List(items),
        ) == Ok::<(JsonView, JsonView), Seq<char>>(
            (float_or_zero(items[0]), float_or_zero(items[1])),
        ),
        short_position(value) <==> value is List && value->List_0.len() < 2,
        !(value is List) ==> position(value) == Err::<(JsonView, JsonView), Seq<char>>(
            "element not found or not visible"@,
        ),
{
}

/// A number counts as itself, in floating point, and everything else as zero.
pub proof fn law_other_than_numbers_count_as_zero(json: JsonView)
    ensures
        json_float(json) matches Some(float) ==> float_or_zero(json) == float,
        json_float(json) is None ==> float_or_zero(json) == float_or_zero(JsonView::Integer(0))
            || json_float(JsonView::Integer(0)) is None,
{
}

/// The bytes of a result are what base64 gives for its data; without data the
/// failure is the one that was named.
pub proof fn law_data_is_decoded(result: JsonView, text: Seq<char>, none: Seq<char>)
    ensures
        result.get("data"@) == Some(JsonView::Text(text)) ==> data(result, none) == base64_bytes(
            text,
        ),
        result.get("data"@) is None || !(result.get("data"@)->Some_0 is Text) ==> data(result, none)
            == Err::<Seq<u8>, Seq<char>>(none),
{
}

/// A wait fails only where the page gave up, and then tells the selector.
pub proof fn law_wait_fails_when_given_up(value: JsonView, selector: Seq<char>)
    ensures
        selected(JsonView::Bool(false), selector) == Err::<(), Seq<char>>(
            "timeout waiting for selector "@ + selector,
        ),
        value != JsonView::Bool(false) ==> selected(value, selector) == Ok::<(), Seq<char>>(()),
{
}

/// A place is seen as its two coordinates, in their order.
pub proof fn law_place_is_seen_as_it_is(pos: Position)
    ensures
        pos@.0 == pos.x@,
        pos@.1 == pos.y@,
{
}

} // verus!
