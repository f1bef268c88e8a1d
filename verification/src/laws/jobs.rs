//! Promises on what the daemon does for a client, from the request to the answer.
use vstd::prelude::*;

use crate::args::ArgsView;
use crate::client::command_request;
use crate::client::Destination;
use crate::client::DestinationView;
use crate::codec::base64_bytes;
use crate::codec::base64_text;
use crate::codec::quoted;
use crate::daemon::bytes_answer;
use crate::daemon::error_answer;
use crate::daemon::outputs_answer;
use crate::daemon::stop_answer;
use crate::daemon::text_answer;
use crate::daemon::Event;
use crate::daemon::EventView;
use crate::daemon::Job;
use crate::daemon::JobView;
use crate::daemon::Next;
use crate::daemon::NextView;
use crate::daemon::ScriptView;
use crate::daemon::Talk;
use crate::json::float_or_zero;
use crate::json::json_text;
use crate::json::Json;
use crate::json::JsonView;
use crate::laws::documents::lemma_object_1;
use crate::laws::documents::lemma_object_3;
use crate::laws::messages::documents;
use crate::laws::messages::law_batch_is_read_in_order;
use crate::laws::messages::law_commands_are_counted;
use crate::laws::messages::number_ahead;
use crate::laws::messages::reads_as;
use crate::laws::names::lemma_command_names;
use crate::laws::pages::button_params;
use crate::laws::pages::evaluate_params;
use crate::laws::pages::gives_up_after;
use crate::laws::pages::law_click_commands;
use crate::laws::pages::law_page_commands;
use crate::laws::pages::law_position_expression;
use crate::laws::pages::law_wait_expression;
use crate::laws::pages::move_params;
use crate::laws::pages::screenshot_params;
use crate::laws::pages::size_params;
use crate::laws::requests::row;
use crate::request::asked_size;
use crate::request::law_request_reads_back;
use crate::request::request_timeout;
use crate::request::wanted;
use crate::request::WantedView;
use crate::script::script_action;
use crate::script::words;
use crate::script::ActionView;
use crate::session::batch_result;
use crate::session::batch_results;
use crate::session::law_batch_needs_every_answer;
use crate::session::replies_view;
use crate::session::waited_for;
use crate::session::Reply;
use crate::session::ReplyView;
use crate::session::Sent;
use crate::session::SessionView;
use crate::text::decimal;

verus! {

/// Tells whether these commands, methods with parameters, are sent next, for this
/// session, and that the answer to each is awaited for so many seconds.
pub open spec fn sends(
    next: NextView,
    s: SessionView,
    session_id: Option<Seq<char>>,
    commands: Seq<(Seq<char>, JsonView)>,
    limit: int,
) -> bool {
    match next {
        NextView::Exchange(_, ids, bytes, seconds) => {
            &&& seconds == limit
            &&& ids.len() == commands.len()
            &&& forall|i: int| 0 <= i < ids.len() ==> #[trigger] ids[i] == number_ahead(s, i)
            &&& bytes.len() <= u64::MAX ==> reads_as(bytes, documents(s, commands, session_id))
        },
        _ => false,
    }
}

/// Tells whether the client is told of this failure, and nothing more happens.
pub open spec fn fails(talk: Talk, out: (NextView, SessionView), message: Seq<char>) -> bool {
    out == (
        NextView::Respond(JsonView::Object(map!["error"@ => JsonView::Text(message)])),
        talk.session,
    )
}

/// Tells whether an action is done and said this: the client is told so, or, where
/// the action stands in a script, the script goes on and keeps it behind what it said
/// before.
pub open spec fn says(
    talk: Talk,
    out: (NextView, SessionView),
    script: Option<ScriptView>,
    timeout: u64,
    text: Seq<char>,
) -> bool {
    match script {
        Some(script) => out == talk.go_on(
            ScriptView { rest: script.rest, outputs: script.outputs.push(text) },
            timeout,
        ),
        None => out == (
            NextView::Respond(JsonView::Object(map!["text"@ => JsonView::Text(text)])),
            talk.session,
        ),
    }
}

/// One answer.
pub open spec fn one_reply(answer: JsonView) -> EventView {
    EventView::Replies(seq![ReplyView::Arrived(answer)])
}

/// Tells whether an answer is this result.
pub open spec fn answers(answer: JsonView, result: JsonView) -> bool {
    answer.get("error"@) is None && answer.get("result"@) == Some(result)
}

/// Tells whether an answer is the value of an expression.
pub open spec fn answers_value(answer: JsonView, value: JsonView) -> bool {
    &&& answer.get("error"@) is None
    &&& answer.get("result"@) matches Some(result)
    &&& result.get("exceptionDetails"@) is None
    &&& result.get("result"@) matches Some(inner)
    &&& inner.get("value"@) == Some(value)
}

proof fn lemma_sent(
    s: SessionView,
    session_id: Seq<char>,
    job: JobView,
    messages: Seq<(Seq<char>, JsonView)>,
    seconds: u64,
)
    ensures
        sends(
            (Talk { session: s, session_id }).exchange(job, messages, seconds).0,
            s,
            Some(session_id),
            messages,
            seconds as int,
        ),
{
    let n = messages.len();
    assert forall|i: int| 0 <= i < n implies #[trigger] s.ids(n)[i] == number_ahead(s, i) by {
        law_commands_are_counted(s, n, i);
    }
    if crate::session::batch_bytes(s, messages, Some(session_id)).len() <= u64::MAX {
        law_batch_is_read_in_order(s, messages, Some(session_id));
    }
}

/// Numbers ahead do not depend on subscriptions.
proof fn lemma_subscribed(
    next: NextView,
    s: SessionView,
    method: Seq<char>,
    session_id: Option<Seq<char>>,
    commands: Seq<(Seq<char>, JsonView)>,
    limit: int,
)
    requires
        sends(next, s.subscribed(method), session_id, commands, limit),
    ensures
        sends(next, s, session_id, commands, limit),
{
    assert(documents(s.subscribed(method), commands, session_id) =~= documents(
        s,
        commands,
        session_id,
    )) by {
        assert forall|i: int| number_ahead(s.subscribed(method), i) == number_ahead(s, i) by {}
    }
    match next {
        NextView::Exchange(_, ids, _, _) => {
            assert forall|i: int| 0 <= i < ids.len() implies #[trigger] ids[i] == number_ahead(
                s,
                i,
            ) by {
                assert(ids[i] == number_ahead(s.subscribed(method), i));
            }
        },
        _ => {},
    }
}

/// To navigate is to send the browser to the address that was asked for, and only
/// after the event was subscribed to that tells that the document is there.
pub proof fn law_navigation_goes_to_its_address(
    talk: Talk,
    url: Seq<char>,
    timeout: u64,
    script: Option<ScriptView>,
)
    ensures
        sends(
            talk.begin(ActionView::Navigate(url), timeout, script).0,
            talk.session,
            Some(talk.session_id),
            seq![("Page.navigate"@, JsonView::Object(map!["url"@ => JsonView::Text(url)]))],
            60,
        ),
        talk.begin(ActionView::Navigate(url), timeout, script).1.subs == talk.session.subs.push(
            ("Page.domContentEventFired"@, talk.session.next_token),
        ),
{
    law_page_commands(0, 0, url, url, url, url);
    let event = "Page.domContentEventFired"@;
    let s = talk.session.subscribed(event);
    let commands = seq![
        ("Page.navigate"@, JsonView::Object(map!["url"@ => JsonView::Text(url)])),
    ];
    let (next, _) = talk.begin(ActionView::Navigate(url), timeout, script);
    lemma_sent(s, talk.session_id, next.job()->Some_0, commands, 60);
    assert(sends(next, s, Some(talk.session_id), commands, 60));
    lemma_subscribed(next, talk.session, event, Some(talk.session_id), commands, 60);
    crate::session::lemma_after(s, 1);
}

/// Each other action first sends the one command that it is about, with what was
/// asked for in it.
pub proof fn law_actions_send_what_was_asked(
    talk: Talk,
    a: Seq<char>,
    b: Seq<char>,
    out: Option<Seq<char>>,
    w: u32,
    h: u32,
    timeout: u64,
    script: Option<ScriptView>,
)
    ensures
        ({
            let sid = Some(talk.session_id);
            let s = talk.session;
            let position = "(() => { const el = document.querySelector("@ + quoted(a)
                + "); if(!el) return null; el.scrollIntoView({block:'center',inline:'center'}); const r = el.getBoundingClientRect(); return [r.x + r.width/2, r.y + r.height/2]; })()"@;
            &&& sends(
                talk.begin(ActionView::Eval(a), timeout, script).0,
                s,
                sid,
                seq![("Runtime.evaluate"@, evaluate_params(a))],
                60,
            )
            &&& sends(
                talk.begin(ActionView::Click(a), timeout, script).0,
                s,
                sid,
                seq![("Runtime.evaluate"@, evaluate_params(position))],
                60,
            )
            &&& sends(
                talk.begin(ActionView::Type(a, b), timeout, script).0,
                s,
                sid,
                seq![("Runtime.evaluate"@, evaluate_params(position))],
                60,
            )
            &&& sends(
                talk.begin(ActionView::Screenshot(out, b), timeout, script).0,
                s,
                sid,
                seq![("Page.captureScreenshot"@, screenshot_params(b))],
                60,
            )
            &&& sends(
                talk.begin(ActionView::Pdf(out), timeout, script).0,
                s,
                sid,
                seq![
                    (
                        "Page.printToPDF"@,
                        JsonView::Object(map!["printBackground"@ => JsonView::Bool(true)]),
                    ),
                ],
                60,
            )
            &&& sends(
                talk.begin(ActionView::Title, timeout, script).0,
                s,
                sid,
                seq![("Runtime.evaluate"@, evaluate_params("document.title"@))],
                60,
            )
            &&& sends(
                talk.begin(ActionView::Content, timeout, script).0,
                s,
                sid,
                seq![
                    ("Runtime.evaluate"@, evaluate_params("document.documentElement.outerHTML"@)),
                ],
                60,
            )
            &&& sends(
                talk.begin(ActionView::Viewport(w, h), timeout, script).0,
                s,
                sid,
                seq![("Emulation.setDeviceMetricsOverride"@, size_params(w, h))],
                60,
            )
        }),
{
    let s = talk.session;
    let sid = talk.session_id;
    law_position_expression(a);
    let position = crate::page::position_script(a);
    law_page_commands(w, h, a, a, b, a);
    law_page_commands(w, h, a, position, b, a);
    law_page_commands(w, h, a, "document.title"@, b, a);
    law_page_commands(w, h, a, "document.documentElement.outerHTML"@, b, a);
    lemma_begin(talk, ActionView::Eval(a), timeout, script);
    lemma_begin(talk, ActionView::Click(a), timeout, script);
    lemma_begin(talk, ActionView::Type(a, b), timeout, script);
    lemma_begin(talk, ActionView::Screenshot(out, b), timeout, script);
    lemma_begin(talk, ActionView::Pdf(out), timeout, script);
    lemma_begin(talk, ActionView::Title, timeout, script);
    lemma_begin(talk, ActionView::Content, timeout, script);
    lemma_begin(talk, ActionView::Viewport(w, h), timeout, script);
}

proof fn lemma_begin(
    talk: Talk,
    action: ActionView,
    timeout: u64,
    script: Option<ScriptView>,
)
    requires
        !(action is Navigate),
    ensures
        sends(
            talk.begin(action, timeout, script).0,
            talk.session,
            Some(talk.session_id),
            seq![crate::daemon::first_command(action, timeout)],
            crate::daemon::first_limit(action, timeout) as int,
        ),
{
    let next = talk.begin(action, timeout, script).0;
    lemma_sent(
        talk.session,
        talk.session_id,
        next.job()->Some_0,
        seq![crate::daemon::first_command(action, timeout)],
        crate::daemon::first_limit(action, timeout),
    );
}

/// A wait sends the one expression that looks for the selector and gives up after
/// the timeout that was asked for.
pub proof fn law_wait_gives_up_when_asked_to(
    talk: Talk,
    selector: Seq<char>,
    timeout: u64,
    script: Option<ScriptView>,
)
    ensures
        sends(
            talk.begin(ActionView::Wait(selector), timeout, script).0,
            talk.session,
            Some(talk.session_id),
            seq![
                (
                    "Runtime.evaluate"@,
                    evaluate_params(
                        "new Promise((resolve) => { if(document.querySelector("@ + quoted(selector)
                            + ")) return resolve(true); const obs = new MutationObserver(() => { if(document.querySelector("@
                            + quoted(selector)
                            + ")) { obs.disconnect(); resolve(true); } }); obs.observe(document.documentElement || document.body, {childList:true, subtree:true}); setTimeout(() => { obs.disconnect(); resolve(false); }, "@
                            + (decimal(timeout as nat) + "); })"@),
                    ),
                ),
            ],
            if timeout < 60_000 {
                60
            } else {
                timeout / 1000 + 10
            },
        ),
{
    law_wait_expression(selector, timeout);
    law_page_commands(
        0,
        0,
        selector,
        crate::page::wait_script(selector, timeout),
        selector,
        selector,
    );
    assert(gives_up_after(timeout) == decimal(timeout as nat) + "); })"@);
    lemma_begin(talk, ActionView::Wait(selector), timeout, script);
}

/// What a client asks for is what reaches the browser: the address of a `navigate`
/// on the command line, and the selector and timeout of a `wait`.
pub proof fn law_asked_for_is_sent(talk: Talk, args: ArgsView)
    requires
        args.viewport is None,
        args.cmd_args.len() >= 1,
    ensures
        args.command == "navigate"@ ==> sends(
            talk.start(command_request(args)).0,
            talk.session,
            Some(talk.session_id),
            seq![
                (
                    "Page.navigate"@,
                    JsonView::Object(map!["url"@ => JsonView::Text(args.cmd_args[0])]),
                ),
            ],
            60,
        ),
        args.command == "wait"@ ==> sends(
            talk.start(command_request(args)).0,
            talk.session,
            Some(talk.session_id),
            seq![
                (
                    "Runtime.evaluate"@,
                    evaluate_params(
                        "new Promise((resolve) => { if(document.querySelector("@ + quoted(
                            args.cmd_args[0],
                        )
                            + ")) return resolve(true); const obs = new MutationObserver(() => { if(document.querySelector("@
                            + quoted(args.cmd_args[0])
                            + ")) { obs.disconnect(); resolve(true); } }); obs.observe(document.documentElement || document.body, {childList:true, subtree:true}); setTimeout(() => { obs.disconnect(); resolve(false); }, "@
                            + (decimal(args.timeout as nat) + "); })"@),
                    ),
                ),
            ],
            if args.timeout < 60_000 {
                60
            } else {
                args.timeout / 1000 + 10
            },
        ),
{
    lemma_command_names();
    law_request_reads_back(args);
    let list = crate::request::request_list(command_request(args), "args"@);
    assert(crate::request::text_at(list, 0) == crate::script::argument(args.cmd_args, 0));
    if args.command == "navigate"@ {
        law_navigation_goes_to_its_address(talk, args.cmd_args[0], args.timeout, None);
    }
    if args.command == "wait"@ {
        law_wait_gives_up_when_asked_to(talk, args.cmd_args[0], args.timeout, None);
    }
}

/// The line of a script that is next is what is done next: a `navigate` or a `goto`
/// goes to the address on its line, and a line that cannot be read ends the script.
pub proof fn law_script_line_is_done_next(talk: Talk, script: ScriptView, timeout: u64)
    ensures
        script.rest.len() == 0 ==> talk.go_on(script, timeout) == (
            NextView::Respond(JsonView::Object(map!["outputs"@ => row(script.outputs)])),
            talk.session,
        ),
        script.rest.len() > 0 ==> match script_action(words(script.rest[0])) {
            Ok(action) => talk.go_on(script, timeout) == talk.begin(
                action,
                timeout,
                Some(ScriptView { rest: script.rest.skip(1), outputs: script.outputs }),
            ),
            Err(message) => fails(talk, talk.go_on(script, timeout), message),
        },
        script.rest.len() > 0 && words(script.rest[0]).len() >= 2 && (words(script.rest[0])[0]
            == "navigate"@ || words(script.rest[0])[0] == "goto"@) ==> sends(
            talk.go_on(script, timeout).0,
            talk.session,
            Some(talk.session_id),
            seq![
                (
                    "Page.navigate"@,
                    JsonView::Object(map!["url"@ => JsonView::Text(words(script.rest[0])[1])]),
                ),
            ],
            60,
        ),
{
    assert(script.outputs.map_values(|s: Seq<char>| JsonView::Text(s)) =~= Seq::new(
        script.outputs.len(),
        |i: int| JsonView::Text(script.outputs[i]),
    ));
    lemma_object_1("outputs"@, row(script.outputs));
    if script.rest.len() > 0 {
        let line = words(script.rest[0]);
        match script_action(line) {
            Ok(_) => {},
            Err(message) => {
                lemma_object_1("error"@, JsonView::Text(message));
            },
        }
        if line.len() >= 2 && (line[0] == "navigate"@ || line[0] == "goto"@) {
            law_navigation_goes_to_its_address(
                talk,
                line[1],
                timeout,
                Some(ScriptView { rest: script.rest.skip(1), outputs: script.outputs }),
            );
        }
    }
}

/// The answers of the daemon are these documents.
pub proof fn law_answers_are_these_documents(
    text: Seq<char>,
    outputs: Seq<Seq<char>>,
    bytes: Seq<u8>,
    out: Option<Seq<char>>,
    kind: Seq<char>,
)
    ensures
        text_answer(text) == JsonView::Object(map!["text"@ => JsonView::Text(text)]),
        error_answer(text) == JsonView::Object(map!["error"@ => JsonView::Text(text)]),
        outputs_answer(outputs) == JsonView::Object(map!["outputs"@ => row(outputs)]),
        stop_answer() == JsonView::Object(map!["ok"@ => JsonView::Bool(true)]),
        bytes_answer(bytes, out, kind) == JsonView::Object(
            map![
                "data_b64"@ => JsonView::Text(base64_text(bytes)),
                "out"@ => JsonView::Text(
                    match out {
                        Some(path) => path,
                        None => Seq::empty(),
                    },
                ),
                "kind"@ => JsonView::Text(kind),
            ],
        ),
{
    lemma_object_1("text"@, JsonView::Text(text));
    lemma_object_1("error"@, JsonView::Text(text));
    assert(outputs.map_values(|s: Seq<char>| JsonView::Text(s)) =~= Seq::new(
        outputs.len(),
        |i: int| JsonView::Text(outputs[i]),
    ));
    lemma_object_1("outputs"@, row(outputs));
    lemma_object_1("ok"@, JsonView::Bool(true));
    let path = match out {
        Some(path) => path,
        None => Seq::empty(),
    };
    lemma_object_3(
        "data_b64"@,
        JsonView::Text(base64_text(bytes)),
        "out"@,
        JsonView::Text(path),
        "kind"@,
        JsonView::Text(kind),
    );
}

/// A request is begun with its own timeout; a request to stop and one that is refused
/// are answered at once; and a size that is asked for is set before all else.
pub proof fn law_requests_are_begun(talk: Talk, req: JsonView, action: ActionView, size: (u32, u32))
    ensures
        wanted(req) == Ok::<WantedView, Seq<char>>(WantedView::Stop) ==> talk.start(req) == (
            NextView::Stop(JsonView::Object(map!["ok"@ => JsonView::Bool(true)])),
            talk.session,
        ),
        wanted(req) is Err ==> fails(talk, talk.start(req), wanted(req)->Err_0),
        wanted(req) == Ok::<WantedView, Seq<char>>(WantedView::Page(action)) && (asked_size(
            req,
        ) is None || action is Viewport) ==> talk.start(req) == talk.begin(
            action,
            request_timeout(req),
            None,
        ),
        wanted(req) is Ok && wanted(req)->Ok_0 is Script && asked_size(req) is None ==> talk.start(
            req,
        ) == talk.go_on(
            ScriptView { rest: wanted(req)->Ok_0->Script_0, outputs: Seq::empty() },
            request_timeout(req),
        ),
        wanted(req) is Ok && !(wanted(req)->Ok_0 is Stop) && !(wanted(req)->Ok_0 is Page
            && wanted(req)->Ok_0->Page_0 is Viewport) && asked_size(req) == Some(size) ==> sends(
            talk.start(req).0,
            talk.session,
            Some(talk.session_id),
            seq![("Emulation.setDeviceMetricsOverride"@, size_params(size.0, size.1))],
            60,
        ),
{
    lemma_object_1("ok"@, JsonView::Bool(true));
    if wanted(req) is Err {
        lemma_object_1("error"@, JsonView::Text(wanted(req)->Err_0));
    }
    law_page_commands(
        size.0,
        size.1,
        Seq::empty(),
        Seq::empty(),
        Seq::empty(),
        Seq::empty(),
    );
    let next = talk.start(req).0;
    lemma_sent(
        talk.session,
        talk.session_id,
        next.job()->Some_0,
        seq![("Emulation.setDeviceMetricsOverride"@, size_params(size.0, size.1))],
        60,
    );
}

/// The job of an action that was begun.
pub open spec fn begun(
    talk: Talk,
    action: ActionView,
    timeout: u64,
    script: Option<ScriptView>,
) -> JobView {
    talk.begin(action, timeout, script).0.job()->Some_0
}

/// Once the size is set that was asked for, what was asked for is begun, with all
/// that was asked.
pub proof fn law_sized_request_goes_on(
    talk: Talk,
    req: JsonView,
    action: ActionView,
    later: Talk,
    answer: JsonView,
    result: JsonView,
)
    requires
        asked_size(req) is Some,
        answers(answer, result),
    ensures
        wanted(req) == Ok::<WantedView, Seq<char>>(WantedView::Page(action)) && !(
        action is Viewport) ==> {
            let job = talk.start(req).0.job()->Some_0;
            &&& job.accepts(one_reply(answer))
            &&& later.resume(job, one_reply(answer)) == later.begin(
                action,
                request_timeout(req),
                None,
            )
        },
        wanted(req) is Ok && wanted(req)->Ok_0 is Script ==> {
            let job = talk.start(req).0.job()->Some_0;
            &&& job.accepts(one_reply(answer))
            &&& later.resume(job, one_reply(answer)) == later.go_on(
                ScriptView { rest: wanted(req)->Ok_0->Script_0, outputs: Seq::empty() },
                request_timeout(req),
            )
        },
{
}

/// A click goes to the place that the page gave for the element: every mouse event
/// has the first number of the page as its `x` and the second as its `y`.
pub proof fn law_click_goes_where_the_element_is(
    talk: Talk,
    selector: Seq<char>,
    text: Seq<char>,
    timeout: u64,
    script: Option<ScriptView>,
    later: Talk,
    answer: JsonView,
    place: Seq<JsonView>,
)
    requires
        answers_value(answer, JsonView::List(place)),
        place.len() >= 2,
    ensures
        ({
            let x = float_or_zero(place[0]);
            let y = float_or_zero(place[1]);
            let job = begun(talk, ActionView::Click(selector), timeout, script);
            &&& job.accepts(one_reply(answer))
            &&& sends(
                later.resume(job, one_reply(answer)).0,
                later.session,
                Some(later.session_id),
                seq![
                    ("Input.dispatchMouseEvent"@, move_params(x, y)),
                    ("Input.dispatchMouseEvent"@, button_params("mousePressed"@, x, y)),
                    ("Input.dispatchMouseEvent"@, button_params("mouseReleased"@, x, y)),
                ],
                10,
            )
        }),
        ({
            let x = float_or_zero(place[0]);
            let y = float_or_zero(place[1]);
            let job = begun(talk, ActionView::Type(selector, text), timeout, script);
            &&& job.accepts(one_reply(answer))
            &&& sends(
                later.resume(job, one_reply(answer)).0,
                later.session,
                Some(later.session_id),
                seq![
                    ("Input.dispatchMouseEvent"@, move_params(x, y)),
                    ("Input.dispatchMouseEvent"@, button_params("mousePressed"@, x, y)),
                    ("Input.dispatchMouseEvent"@, button_params("mouseReleased"@, x, y)),
                    ("Input.insertText"@, JsonView::Object(map!["text"@ => JsonView::Text(text)])),
                ],
                10,
            )
        }),
{
    let x = float_or_zero(place[0]);
    let y = float_or_zero(place[1]);
    law_click_commands(x, y, text);
    let clicked = later.resume(
        begun(talk, ActionView::Click(selector), timeout, script),
        one_reply(answer),
    ).0;
    lemma_sent(
        later.session,
        later.session_id,
        clicked.job()->Some_0,
        crate::page::click_commands(x, y),
        10,
    );
    let typed = later.resume(
        begun(talk, ActionView::Type(selector, text), timeout, script),
        one_reply(answer),
    ).0;
    lemma_sent(
        later.session,
        later.session_id,
        typed.job()->Some_0,
        crate::page::type_commands(x, y, text),
        10,
    );
}

/// Tells whether these answers are all without an error.
pub open spec fn all_well(replies: Seq<ReplyView>) -> bool {
    forall|i: int| 0 <= i < replies.len() ==> batch_result(#[trigger] replies[i]) is Ok
}

/// A click and a typing are done once each of their commands was answered without an
/// error, and say which element they were about; one error ends them.
pub proof fn law_click_is_done_when_answered(
    talk: Talk,
    selector: Seq<char>,
    text: Seq<char>,
    timeout: u64,
    script: Option<ScriptView>,
    later: Talk,
    answer: JsonView,
    place: Seq<JsonView>,
    last: Talk,
    replies: Seq<ReplyView>,
)
    requires
        answers_value(answer, JsonView::List(place)),
        place.len() >= 2,
    ensures
        ({
            let first = begun(talk, ActionView::Click(selector), timeout, script);
            let job = later.resume(first, one_reply(answer)).0.job()->Some_0;
            &&& job.accepts(EventView::Replies(replies)) && all_well(replies) ==> replies.len()
                == 3 && says(
                last,
                last.resume(job, EventView::Replies(replies)),
                script,
                timeout,
                "clicked: "@ + selector,
            )
            &&& job.accepts(EventView::Replies(replies)) <==> waited_for(replies, 3)
            &&& job.accepts(EventView::TransportClosed)
            &&& fails(last, last.resume(job, EventView::TransportClosed), "transport closed"@)
            &&& job.accepts(EventView::Replies(replies)) && !all_well(replies) ==> batch_results(
                replies,
            ) is Err && fails(
                last,
                last.resume(job, EventView::Replies(replies)),
                batch_results(replies)->Err_0,
            )
        }),
        ({
            let first = begun(talk, ActionView::Type(selector, text), timeout, script);
            let job = later.resume(first, one_reply(answer)).0.job()->Some_0;
            &&& job.accepts(EventView::Replies(replies)) && all_well(replies) ==> replies.len()
                == 4 && says(
                last,
                last.resume(job, EventView::Replies(replies)),
                script,
                timeout,
                "typed into: "@ + selector,
            )
            &&& job.accepts(EventView::Replies(replies)) <==> waited_for(replies, 4)
            &&& job.accepts(EventView::TransportClosed)
            &&& fails(last, last.resume(job, EventView::TransportClosed), "transport closed"@)
            &&& job.accepts(EventView::Replies(replies)) && !all_well(replies) ==> batch_results(
                replies,
            ) is Err && fails(
                last,
                last.resume(job, EventView::Replies(replies)),
                batch_results(replies)->Err_0,
            )
        }),
{
    law_batch_needs_every_answer(replies);
    if replies.len() > 0 {
        assert(replies.last() == replies[replies.len() - 1]);
    }
    lemma_object_1("error"@, JsonView::Text("transport closed"@));
    lemma_object_1("text"@, JsonView::Text("clicked: "@ + selector));
    lemma_object_1("text"@, JsonView::Text("typed into: "@ + selector));
    if batch_results(replies) is Err {
        lemma_object_1("error"@, JsonView::Text(batch_results(replies)->Err_0));
    }
}

/// Every command that is sent is awaited in the conversation, and nothing else in it
/// changes but the subscription of a navigation.
pub proof fn law_sent_commands_are_awaited(
    talk: Talk,
    action: ActionView,
    selector: Seq<char>,
    text: Seq<char>,
    timeout: u64,
    script: Option<ScriptView>,
    later: Talk,
    answer: JsonView,
    place: Seq<JsonView>,
)
    requires
        answers_value(answer, JsonView::List(place)),
        place.len() >= 2,
    ensures
        !(action is Navigate) ==> talk.begin(action, timeout, script).1 == talk.session.after(1),
        action is Navigate ==> talk.begin(action, timeout, script).1 == talk.session.subscribed(
            "Page.domContentEventFired"@,
        ).after(1),
        later.resume(
            begun(talk, ActionView::Click(selector), timeout, script),
            one_reply(answer),
        ).1 == later.session.after(3),
        later.resume(
            begun(talk, ActionView::Type(selector, text), timeout, script),
            one_reply(answer),
        ).1 == later.session.after(4),
{
}

/// An element that is not there ends a click and a typing, and a list that is too
/// short to be a place is not taken.
pub proof fn law_missing_element_is_a_failure(
    talk: Talk,
    selector: Seq<char>,
    text: Seq<char>,
    timeout: u64,
    script: Option<ScriptView>,
    later: Talk,
    answer: JsonView,
    value: JsonView,
)
    requires
        answers_value(answer, value),
    ensures
        ({
            let click = begun(talk, ActionView::Click(selector), timeout, script);
            let typed = begun(talk, ActionView::Type(selector, text), timeout, script);
            let missing = "element not found or not visible"@;
            &&& !(value is List) ==> fails(later, later.resume(click, one_reply(answer)), missing)
            &&& !(value is List) ==> fails(later, later.resume(typed, one_reply(answer)), missing)
            &&& click.accepts(one_reply(answer)) <==> !(value is List && value->List_0.len() < 2)
            &&& typed.accepts(one_reply(answer)) <==> !(value is List && value->List_0.len() < 2)
        }),
{
    lemma_object_1("error"@, JsonView::Text("element not found or not visible"@));
}

/// An evaluation says the value of its expression as JSON; title and content say the
/// text that the page gave, or nothing where it gave none; a wait says that the
/// element is there, or fails where the page gave up; a viewport says its size.
pub proof fn law_answered_actions_say_what_came(
    talk: Talk,
    a: Seq<char>,
    w: u32,
    h: u32,
    timeout: u64,
    script: Option<ScriptView>,
    later: Talk,
    answer: JsonView,
    value: JsonView,
)
    requires
        answers_value(answer, value),
    ensures
        says(
            later,
            later.resume(begun(talk, ActionView::Eval(a), timeout, script), one_reply(answer)),
            script,
            timeout,
            json_text(value),
        ),
        says(
            later,
            later.resume(begun(talk, ActionView::Title, timeout, script), one_reply(answer)),
            script,
            timeout,
            if value is Text {
                value->Text_0
            } else {
                Seq::empty()
            },
        ),
        says(
            later,
            later.resume(begun(talk, ActionView::Content, timeout, script), one_reply(answer)),
            script,
            timeout,
            if value is Text {
                value->Text_0
            } else {
                Seq::empty()
            },
        ),
        value != JsonView::Bool(false) ==> says(
            later,
            later.resume(begun(talk, ActionView::Wait(a), timeout, script), one_reply(answer)),
            script,
            timeout,
            "ready: "@ + a,
        ),
        value == JsonView::Bool(false) ==> fails(
            later,
            later.resume(begun(talk, ActionView::Wait(a), timeout, script), one_reply(answer)),
            "timeout waiting for selector "@ + a,
        ),
        says(
            later,
            later.resume(
                begun(talk, ActionView::Viewport(w, h), timeout, script),
                one_reply(answer),
            ),
            script,
            timeout,
            "viewport: "@ + decimal(w as nat) + "x"@ + decimal(h as nat),
        ),
{
    lemma_object_1("text"@, JsonView::Text(json_text(value)));
    let text = if value is Text {
        value->Text_0
    } else {
        Seq::empty()
    };
    lemma_object_1("text"@, JsonView::Text(text));
    lemma_object_1("text"@, JsonView::Text("ready: "@ + a));
    lemma_object_1("error"@, JsonView::Text("timeout waiting for selector "@ + a));
    lemma_object_1(
        "text"@,
        JsonView::Text("viewport: "@ + decimal(w as nat) + "x"@ + decimal(h as nat)),
    );
}

/// An evaluation that raised an exception, or that has no result, ends its action.
pub proof fn law_exception_is_a_failure(
    talk: Talk,
    action: ActionView,
    timeout: u64,
    script: Option<ScriptView>,
    later: Talk,
    answer: JsonView,
    result: JsonView,
)
    requires
        answers(answer, result),
        action is Eval || action is Title || action is Content || action is Wait || action is Click
            || action is Type,
    ensures
        result.get("exceptionDetails"@) is Some ==> fails(
            later,
            later.resume(begun(talk, action, timeout, script), one_reply(answer)),
            "eval error: "@ + json_text(result.get("exceptionDetails"@)->Some_0),
        ),
        result.get("exceptionDetails"@) is None && result.get("result"@) is None ==> fails(
            later,
            later.resume(begun(talk, action, timeout, script), one_reply(answer)),
            "no eval result"@,
        ),
{
    if result.get("exceptionDetails"@) is Some {
        lemma_object_1(
            "error"@,
            JsonView::Text(
                "eval error: "@ + json_text(result.get("exceptionDetails"@)->Some_0),
            ),
        );
    }
    lemma_object_1("error"@, JsonView::Text("no eval result"@));
}

/// A screenshot and a printed page are the bytes that the browser sent. Alone, they
/// are handed to the client with the file that they are for; in a script they are
/// saved there, and the script goes on once they are, without an output.
pub proof fn law_bytes_are_handed_on(
    talk: Talk,
    out: Option<Seq<char>>,
    format: Seq<char>,
    timeout: u64,
    later: Talk,
    answer: JsonView,
    result: JsonView,
    encoded: Seq<char>,
    bytes: Seq<u8>,
    script: ScriptView,
    last: Talk,
    reason: Seq<char>,
)
    requires
        answers(answer, result),
        result.get("data"@) == Some(JsonView::Text(encoded)),
        base64_bytes(encoded) == Ok::<Seq<u8>, Seq<char>>(bytes),
    ensures
        ({
            let path = match out {
                Some(path) => path,
                None => Seq::empty(),
            };
            let alone = later.resume(
                begun(talk, ActionView::Screenshot(out, format), timeout, None),
                one_reply(answer),
            );
            let printed = later.resume(
                begun(talk, ActionView::Pdf(out), timeout, None),
                one_reply(answer),
            );
            &&& alone == (
                NextView::Respond(
                    JsonView::Object(
                        map![
                            "data_b64"@ => JsonView::Text(base64_text(bytes)),
                            "out"@ => JsonView::Text(path),
                            "kind"@ => JsonView::Text("screenshot"@),
                        ],
                    ),
                ),
                later.session,
            )
            &&& printed == (
                NextView::Respond(
                    JsonView::Object(
                        map![
                            "data_b64"@ => JsonView::Text(base64_text(bytes)),
                            "out"@ => JsonView::Text(path),
                            "kind"@ => JsonView::Text("page"@),
                        ],
                    ),
                ),
                later.session,
            )
        }),
        ({
            let (shot, _) = later.resume(
                begun(talk, ActionView::Screenshot(out, format), timeout, Some(script)),
                one_reply(answer),
            );
            let (printed, _) = later.resume(
                begun(talk, ActionView::Pdf(out), timeout, Some(script)),
                one_reply(answer),
            );
            &&& saved(shot, out, "screenshot"@, bytes)
            &&& saved(printed, out, "page"@, bytes)
            &&& shot.job()->Some_0.accepts(EventView::Saved(None))
            &&& shot.job()->Some_0.accepts(EventView::Saved(Some(reason)))
            &&& printed.job()->Some_0.accepts(EventView::Saved(None))
            &&& printed.job()->Some_0.accepts(EventView::Saved(Some(reason)))
            &&& last.resume(shot.job()->Some_0, EventView::Saved(None)) == last.go_on(
                script,
                timeout,
            )
            &&& last.resume(printed.job()->Some_0, EventView::Saved(None)) == last.go_on(
                script,
                timeout,
            )
            &&& fails(
                last,
                last.resume(shot.job()->Some_0, EventView::Saved(Some(reason))),
                reason,
            )
            &&& fails(
                last,
                last.resume(printed.job()->Some_0, EventView::Saved(Some(reason))),
                reason,
            )
        }),
{
    law_answers_are_these_documents(reason, Seq::empty(), bytes, out, "screenshot"@);
    law_answers_are_these_documents(reason, Seq::empty(), bytes, out, "page"@);
}

/// Tells whether these bytes are saved next, in the file that they are for, or, where
/// there is none, on the standard output.
pub open spec fn saved(next: NextView, out: Option<Seq<char>>, kind: Seq<char>, bytes: Seq<u8>) -> bool {
    match next {
        NextView::Save(_, to, made) => {
            &&& made == bytes
            &&& to == (if out is Some && out->Some_0.len() > 0 {
                DestinationView::File(out->Some_0, kind + " saved: "@ + out->Some_0)
            } else {
                DestinationView::Stdout
            })
        },
        _ => false,
    }
}

/// Without data, and with data that is no base64, there are no bytes to hand on.
pub proof fn law_missing_bytes_are_a_failure(
    talk: Talk,
    out: Option<Seq<char>>,
    format: Seq<char>,
    timeout: u64,
    script: Option<ScriptView>,
    later: Talk,
    answer: JsonView,
    result: JsonView,
)
    requires
        answers(answer, result),
    ensures
        ({
            let shot = later.resume(
                begun(talk, ActionView::Screenshot(out, format), timeout, script),
                one_reply(answer),
            );
            let printed = later.resume(
                begun(talk, ActionView::Pdf(out), timeout, script),
                one_reply(answer),
            );
            let found = result.get("data"@);
            &&& (found is None || !(found->Some_0 is Text)) ==> fails(
                later,
                shot,
                "no screenshot data"@,
            ) && fails(later, printed, "no pdf data"@)
            &&& (found is Some && found->Some_0 is Text && base64_bytes(found->Some_0->Text_0) is Err)
                ==> fails(later, shot, base64_bytes(found->Some_0->Text_0)->Err_0) && fails(
                later,
                printed,
                base64_bytes(found->Some_0->Text_0)->Err_0,
            )
        }),
{
    lemma_object_1("error"@, JsonView::Text("no screenshot data"@));
    lemma_object_1("error"@, JsonView::Text("no pdf data"@));
    let found = result.get("data"@);
    if found is Some && found->Some_0 is Text && base64_bytes(found->Some_0->Text_0) is Err {
        lemma_object_1("error"@, JsonView::Text(base64_bytes(found->Some_0->Text_0)->Err_0));
    }
}

/// Once the browser took the address, the event that was subscribed to is waited for,
/// ten seconds at most; then the navigation is done and says where it went.
pub proof fn law_navigation_waits_for_the_document(
    talk: Talk,
    url: Seq<char>,
    timeout: u64,
    script: Option<ScriptView>,
    later: Talk,
    answer: JsonView,
    result: JsonView,
    last: Talk,
)
    requires
        answers(answer, result),
    ensures
        ({
            let job = begun(talk, ActionView::Navigate(url), timeout, script);
            let next = later.resume(job, one_reply(answer));
            &&& job.accepts(one_reply(answer))
            &&& next.1 == later.session
            &&& next.0 matches NextView::Await(waiting, token, seconds)
            &&& token == talk.session.next_token
            &&& seconds == 10
            &&& waiting.accepts(EventView::Loaded)
            &&& says(
                last,
                last.resume(waiting, EventView::Loaded),
                script,
                timeout,
                "navigated: "@ + url,
            )
        }),
{
    lemma_object_1("text"@, JsonView::Text("navigated: "@ + url));
}

/// Tells whether an answer is a list that is too short to be the place of an element.
pub open spec fn half_a_place(answer: JsonView) -> bool {
    &&& answer.get("error"@) is None
    &&& answer.get("result"@) matches Some(result)
    &&& result.get("exceptionDetails"@) is None
    &&& result.get("result"@) matches Some(inner)
    &&& inner.get("value"@) matches Some(value)
    &&& value is List
    &&& value->List_0.len() < 2
}

/// An action goes on from whatever the browser answers, and from no answer too; only
/// a click and a typing take no list that is too short to be a place.
pub proof fn law_every_answer_is_taken(
    talk: Talk,
    action: ActionView,
    timeout: u64,
    script: Option<ScriptView>,
    answer: JsonView,
)
    ensures
        ({
            let job = begun(talk, action, timeout, script);
            &&& job.accepts(EventView::TransportClosed)
            &&& job.accepts(EventView::Replies(seq![ReplyView::TimedOut]))
            &&& job.accepts(EventView::Replies(seq![ReplyView::Lost]))
            &&& job.accepts(one_reply(answer)) <==> !((action is Click || action is Type)
                && half_a_place(answer))
        }),
{
}

/// A size that cannot be set ends what was asked for before it is begun.
pub proof fn law_unset_size_is_a_failure(talk: Talk, req: JsonView, later: Talk, answer: JsonView)
    requires
        asked_size(req) is Some,
        wanted(req) is Ok,
        !(wanted(req)->Ok_0 is Stop),
        !(wanted(req)->Ok_0 is Page && wanted(req)->Ok_0->Page_0 is Viewport),
    ensures
        ({
            let job = talk.start(req).0.job()->Some_0;
            &&& job.accepts(EventView::TransportClosed)
            &&& job.accepts(EventView::Replies(seq![ReplyView::TimedOut]))
            &&& job.accepts(EventView::Replies(seq![ReplyView::Lost]))
            &&& job.accepts(one_reply(answer))
            &&& fails(later, later.resume(job, EventView::TransportClosed), "transport closed"@)
            &&& fails(
                later,
                later.resume(job, EventView::Replies(seq![ReplyView::TimedOut])),
                "command timed out"@,
            )
            &&& fails(
                later,
                later.resume(job, EventView::Replies(seq![ReplyView::Lost])),
                "channel closed"@,
            )
            &&& answer.get("error"@) is Some ==> fails(
                later,
                later.resume(job, one_reply(answer)),
                "CDP error on "@ + "Emulation.setDeviceMetricsOverride"@ + ": "@ + json_text(
                    answer.get("error"@)->Some_0,
                ),
            )
        }),
{
    lemma_object_1("error"@, JsonView::Text("command timed out"@));
    lemma_object_1("error"@, JsonView::Text("channel closed"@));
    lemma_object_1("error"@, JsonView::Text("transport closed"@));
    if answer.get("error"@) is Some {
        lemma_object_1(
            "error"@,
            JsonView::Text(
                "CDP error on "@ + "Emulation.setDeviceMetricsOverride"@ + ": "@ + json_text(
                    answer.get("error"@)->Some_0,
                ),
            ),
        );
    }
}

/// The method of the first command of an action.
pub open spec fn first_method_of(action: ActionView) -> Seq<char> {
    match action {
        ActionView::Navigate(_) => "Page.navigate"@,
        ActionView::Screenshot(_, _) => "Page.captureScreenshot"@,
        ActionView::Pdf(_) => "Page.printToPDF"@,
        ActionView::Viewport(_, _) => "Emulation.setDeviceMetricsOverride"@,
        _ => "Runtime.evaluate"@,
    }
}

/// Where the first command of an action is not answered, or is answered with an
/// error, the client is told, whatever the action is; and each action waits for one
/// answer.
pub proof fn law_unanswered_command_is_a_failure(
    talk: Talk,
    action: ActionView,
    timeout: u64,
    script: Option<ScriptView>,
    later: Talk,
    answer: JsonView,
    replies: Seq<ReplyView>,
)
    ensures
        ({
            let job = begun(talk, action, timeout, script);
            &&& fails(
                later,
                later.resume(job, EventView::Replies(seq![ReplyView::TimedOut])),
                "command timed out"@,
            )
            &&& fails(
                later,
                later.resume(job, EventView::Replies(seq![ReplyView::Lost])),
                "channel closed"@,
            )
            &&& fails(later, later.resume(job, EventView::TransportClosed), "transport closed"@)
            &&& answer.get("error"@) is Some ==> fails(
                later,
                later.resume(job, one_reply(answer)),
                "CDP error on "@ + first_method_of(action) + ": "@ + json_text(
                    answer.get("error"@)->Some_0,
                ),
            )
            &&& job.accepts(EventView::Replies(replies)) ==> replies.len() == 1
        }),
{
    lemma_object_1("error"@, JsonView::Text("command timed out"@));
    lemma_object_1("error"@, JsonView::Text("channel closed"@));
    lemma_object_1("error"@, JsonView::Text("transport closed"@));
    if answer.get("error"@) is Some {
        lemma_object_1(
            "error"@,
            JsonView::Text(
                "CDP error on "@ + first_method_of(action) + ": "@ + json_text(
                    answer.get("error"@)->Some_0,
                ),
            ),
        );
    }
}

/// What is done next, and what happened, is seen as it is.
pub proof fn law_steps_are_seen_as_they_are(
    json: Json,
    job: Job,
    sent: Sent,
    n: u64,
    m: u64,
    to: Destination,
    bytes: Vec<u8>,
    replies: Vec<Reply>,
    failure: Option<String>,
)
    ensures
        Next::Respond(json)@ == NextView::Respond(json@),
        Next::Stop(json)@ == NextView::Stop(json@),
        Next::Exchange(job, sent, n)@ == NextView::Exchange(job@, sent.ids@, sent.bytes@, n),
        Next::Await(job, n, m)@ == NextView::Await(job@, n, m),
        Next::Save(job, to, bytes)@ == NextView::Save(job@, to@, bytes@),
        Event::Replies(replies)@ == EventView::Replies(replies_view(replies@)),
        Event::TransportClosed@ == EventView::TransportClosed,
        Event::Loaded@ == EventView::Loaded,
        Event::Saved(failure)@ == EventView::Saved(
            match failure {
                Some(message) => Some(message@),
                None => None,
            },
        ),
{
}

} // verus!
