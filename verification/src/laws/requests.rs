//! Promises on what clients and the daemon say to each other.
use vstd::prelude::*;

use crate::args::ArgsView;
use crate::client::command_request;
use crate::client::destination;
use crate::client::errand;
use crate::client::member_texts;
use crate::client::only_texts;
use crate::client::script_name;
use crate::client::script_request_of;
use crate::client::script_shown;
use crate::client::shown;
use crate::client::started_after;
use crate::client::stop_request_of;
use crate::client::Destination;
use crate::client::DestinationView;
use crate::client::Errand;
use crate::client::Output;
use crate::client::OutputView;
use crate::client::Sight;
use crate::codec::base64_bytes;
use crate::error::Error;
use crate::json::json_text;
use crate::json::JsonView;
use crate::laws::documents::lemma_object_1;
use crate::laws::documents::lemma_object_3;
use crate::laws::documents::lemma_object_4;
use crate::laws::names::lemma_command_names;
use crate::request::argument_text;
use crate::request::asked_size;
use crate::request::pixels;
use crate::request::request_timeout;
use crate::request::short_viewport;
use crate::request::text_at;
use crate::request::wanted;
use crate::request::with_blanks;
use crate::request::Wanted;
use crate::request::WantedView;
use crate::script::Action;
use crate::script::ActionView;

verus! {

/// A row of texts as a document.
pub open spec fn row(texts: Seq<Seq<char>>) -> JsonView {
    JsonView::List(Seq::new(texts.len(), |i: int| JsonView::Text(texts[i])))
}

/// A size as a document.
pub open spec fn pair(size: (u32, u32)) -> JsonView {
    JsonView::List(seq![JsonView::Integer(size.0 as int), JsonView::Integer(size.1 as int)])
}

/// The requests of a client are these documents.
pub proof fn law_requests_are_these_documents(
    args: ArgsView,
    lines: Seq<Seq<char>>,
    timeout: u64,
    size: (u32, u32),
)
    ensures
        command_request(args) == JsonView::Object(
            map![
                "cmd"@ => JsonView::Text(args.command),
                "args"@ => row(args.cmd_args),
                "timeout"@ => JsonView::Integer(args.timeout as int),
                "viewport"@ => match args.viewport {
                    Some(size) => pair(size),
                    None => JsonView::Null,
                },
            ],
        ),
        script_request_of(lines, timeout, None) == JsonView::Object(
            map![
                "cmd"@ => JsonView::Text("script"@),
                "lines"@ => row(lines),
                "timeout"@ => JsonView::Integer(timeout as int),
            ],
        ),
        script_request_of(lines, timeout, Some(size)) == JsonView::Object(
            map![
                "cmd"@ => JsonView::Text("script"@),
                "lines"@ => row(lines),
                "timeout"@ => JsonView::Integer(timeout as int),
                "viewport"@ => pair(size),
            ],
        ),
        stop_request_of() == JsonView::Object(map!["cmd"@ => JsonView::Text("stop"@)]),
{
    let asked = match args.viewport {
        Some(size) => pair(size),
        None => JsonView::Null,
    };
    assert(args.cmd_args.map_values(|s: Seq<char>| JsonView::Text(s)) =~= Seq::new(
        args.cmd_args.len(),
        |i: int| JsonView::Text(args.cmd_args[i]),
    ));
    assert(lines.map_values(|s: Seq<char>| JsonView::Text(s)) =~= Seq::new(
        lines.len(),
        |i: int| JsonView::Text(lines[i]),
    ));
    lemma_object_4(
        "cmd"@,
        JsonView::Text(args.command),
        "args"@,
        row(args.cmd_args),
        "timeout"@,
        JsonView::Integer(args.timeout as int),
        "viewport"@,
        asked,
    );
    lemma_object_3(
        "cmd"@,
        JsonView::Text("script"@),
        "lines"@,
        row(lines),
        "timeout"@,
        JsonView::Integer(timeout as int),
    );
    lemma_object_4(
        "cmd"@,
        JsonView::Text("script"@),
        "lines"@,
        row(lines),
        "timeout"@,
        JsonView::Integer(timeout as int),
        "viewport"@,
        pair(size),
    );
    let head = seq![
        ("cmd"@, JsonView::Text("script"@)),
        ("lines"@, row(lines)),
        ("timeout"@, JsonView::Integer(timeout as int)),
    ];
    assert(head.push(("viewport"@, pair(size))) =~= seq![
        ("cmd"@, JsonView::Text("script"@)),
        ("lines"@, row(lines)),
        ("timeout"@, JsonView::Integer(timeout as int)),
        ("viewport"@, pair(size)),
    ]);
    lemma_object_1("cmd"@, JsonView::Text("stop"@));
}

/// The script that a client runs is in the file that it names first.
pub proof fn law_script_file_is_named_first(args: ArgsView)
    ensures
        args.cmd_args.len() > 0 ==> script_name(args) == args.cmd_args[0],
        args.cmd_args.len() == 0 ==> script_name(args) == Seq::<char>::empty(),
{
}

/// The daemon does for a request what its command is named after, with the arguments
/// in their places.
pub proof fn law_request_commands(req: JsonView, items: Seq<JsonView>, cmd: Seq<char>)
    requires
        req.get("cmd"@) == Some(JsonView::Text(cmd)),
        req.get("args"@) == Some(JsonView::List(items)),
    ensures
        cmd == "stop"@ ==> wanted(req) == Ok::<WantedView, Seq<char>>(WantedView::Stop),
        cmd == "navigate"@ ==> wanted(req) == Ok::<WantedView, Seq<char>>(
            WantedView::Page(ActionView::Navigate(argument_text(Some(items), 0))),
        ),
        cmd == "eval"@ ==> wanted(req) == Ok::<WantedView, Seq<char>>(
            WantedView::Page(ActionView::Eval(with_blanks(items))),
        ),
        cmd == "click"@ ==> wanted(req) == Ok::<WantedView, Seq<char>>(
            WantedView::Page(ActionView::Click(argument_text(Some(items), 0))),
        ),
        cmd == "type"@ ==> wanted(req) == Ok::<WantedView, Seq<char>>(
            WantedView::Page(
                ActionView::Type(argument_text(Some(items), 0), argument_text(Some(items), 1)),
            ),
        ),
        cmd == "screenshot"@ ==> wanted(req) == Ok::<WantedView, Seq<char>>(
            WantedView::Page(
                ActionView::Screenshot(
                    text_at(Some(items), 0),
                    match text_at(Some(items), 1) {
                        Some(format) => format,
                        None => "png"@,
                    },
                ),
            ),
        ),
        cmd == "pdf"@ ==> wanted(req) == Ok::<WantedView, Seq<char>>(
            WantedView::Page(ActionView::Pdf(text_at(Some(items), 0))),
        ),
        cmd == "wait"@ ==> wanted(req) == Ok::<WantedView, Seq<char>>(
            WantedView::Page(ActionView::Wait(argument_text(Some(items), 0))),
        ),
        cmd == "title"@ ==> wanted(req) == Ok::<WantedView, Seq<char>>(
            WantedView::Page(ActionView::Title),
        ),
        cmd == "content"@ ==> wanted(req) == Ok::<WantedView, Seq<char>>(
            WantedView::Page(ActionView::Content),
        ),
{
    lemma_command_names();
}

/// A request without arguments is read as one with none.
pub proof fn law_request_without_arguments(req: JsonView, cmd: Seq<char>)
    requires
        req.get("cmd"@) == Some(JsonView::Text(cmd)),
        req.get("args"@) is None || !(req.get("args"@)->Some_0 is List),
    ensures
        cmd == "navigate"@ ==> wanted(req) == Ok::<WantedView, Seq<char>>(
            WantedView::Page(ActionView::Navigate(Seq::empty())),
        ),
        cmd == "eval"@ ==> wanted(req) == Ok::<WantedView, Seq<char>>(
            WantedView::Page(ActionView::Eval(Seq::empty())),
        ),
        cmd == "click"@ ==> wanted(req) == Ok::<WantedView, Seq<char>>(
            WantedView::Page(ActionView::Click(Seq::empty())),
        ),
        cmd == "type"@ ==> wanted(req) == Ok::<WantedView, Seq<char>>(
            WantedView::Page(ActionView::Type(Seq::empty(), Seq::empty())),
        ),
        cmd == "screenshot"@ ==> wanted(req) == Ok::<WantedView, Seq<char>>(
            WantedView::Page(ActionView::Screenshot(None, "png"@)),
        ),
        cmd == "pdf"@ ==> wanted(req) == Ok::<WantedView, Seq<char>>(
            WantedView::Page(ActionView::Pdf(None)),
        ),
        cmd == "wait"@ ==> wanted(req) == Ok::<WantedView, Seq<char>>(
            WantedView::Page(ActionView::Wait(Seq::empty())),
        ),
        cmd == "title"@ ==> wanted(req) == Ok::<WantedView, Seq<char>>(
            WantedView::Page(ActionView::Title),
        ),
        cmd == "content"@ ==> wanted(req) == Ok::<WantedView, Seq<char>>(
            WantedView::Page(ActionView::Content),
        ),
{
    lemma_command_names();
}

/// A request for a viewport or a script is read from the members that are for it,
/// and a request for anything else is refused, and told.
pub proof fn law_other_requests(req: JsonView, size: Seq<JsonView>, lines: Seq<JsonView>)
    ensures
        req.get("cmd"@) == Some(JsonView::Text("viewport"@)) && req.get("viewport"@) == Some(
            JsonView::List(size),
        ) && size.len() >= 2 ==> wanted(req) == Ok::<WantedView, Seq<char>>(
            WantedView::Page(ActionView::Viewport(pixels(size[0], 1280), pixels(size[1], 720))),
        ),
        req.get("cmd"@) == Some(JsonView::Text("viewport"@)) && (req.get("viewport"@) is None
            || !(req.get("viewport"@)->Some_0 is List)) ==> wanted(req) == Err::<
            WantedView,
            Seq<char>,
        >("no viewport specified"@) && !short_viewport(req),
        req.get("cmd"@) == Some(JsonView::Text("script"@)) && req.get("lines"@) == Some(
            JsonView::List(lines),
        ) ==> wanted(req) == Ok::<WantedView, Seq<char>>(WantedView::Script(only_texts(lines))),
        req.get("cmd"@) == Some(JsonView::Text("script"@)) && (req.get("lines"@) is None || !(
        req.get("lines"@)->Some_0 is List)) ==> wanted(req) == Ok::<WantedView, Seq<char>>(
            WantedView::Script(Seq::empty()),
        ),
        req.get("cmd"@) is None || !(req.get("cmd"@)->Some_0 is Text) ==> wanted(req) == Err::<
            WantedView,
            Seq<char>,
        >("unknown command: "@ + Seq::empty()),
        short_viewport(req) <==> req.get("cmd"@) == Some(JsonView::Text("viewport"@)) && (req.get(
            "viewport"@,
        ) matches Some(size) && size is List && size->List_0.len() < 2),
{
    lemma_command_names();
    lemma_no_name_is_empty();
}

proof fn lemma_no_name_is_empty()
    ensures
        forall|s: Seq<char>|
            s.len() == 0 ==> #[trigger] s.len() == 0 && s != "stop"@ && s != "navigate"@ && s
                != "eval"@ && s != "click"@ && s != "type"@ && s != "screenshot"@ && s != "pdf"@
                && s != "wait"@ && s != "title"@ && s != "content"@ && s != "viewport"@ && s
                != "script"@,
{
    reveal_strlit("stop");
    reveal_strlit("navigate");
    reveal_strlit("eval");
    reveal_strlit("click");
    reveal_strlit("type");
    reveal_strlit("screenshot");
    reveal_strlit("pdf");
    reveal_strlit("wait");
    reveal_strlit("title");
    reveal_strlit("content");
    reveal_strlit("viewport");
    reveal_strlit("script");
    assert("stop"@.len() > 0 && "navigate"@.len() > 0 && "eval"@.len() > 0 && "click"@.len() > 0
        && "type"@.len() > 0 && "screenshot"@.len() > 0 && "pdf"@.len() > 0 && "wait"@.len() > 0
        && "title"@.len() > 0 && "content"@.len() > 0 && "viewport"@.len() > 0 && "script"@.len()
        > 0);
}

/// A command that the daemon does not know is refused, and told.
pub proof fn law_unknown_request(req: JsonView, cmd: Seq<char>)
    requires
        req.get("cmd"@) == Some(JsonView::Text(cmd)),
        cmd != "stop"@,
        cmd != "navigate"@,
        cmd != "eval"@,
        cmd != "click"@,
        cmd != "type"@,
        cmd != "screenshot"@,
        cmd != "pdf"@,
        cmd != "wait"@,
        cmd != "title"@,
        cmd != "content"@,
        cmd != "viewport"@,
        cmd != "script"@,
    ensures
        wanted(req) == Err::<WantedView, Seq<char>>("unknown command: "@ + cmd),
{
}

/// The timeout and the size of a request are those that it holds, and thirty seconds
/// and none where it holds none.
pub proof fn law_request_is_read(req: JsonView, ms: u64, size: Seq<JsonView>)
    ensures
        req.get("timeout"@) == Some(JsonView::Integer(ms as int)) ==> request_timeout(req) == ms,
        req.get("timeout"@) is None || !(req.get("timeout"@)->Some_0 is Integer) || !(0 <= req.get(
            "timeout"@,
        )->Some_0->Integer_0 <= u64::MAX) ==> request_timeout(req) == 30000,
        req.get("viewport"@) == Some(JsonView::List(size)) ==> asked_size(req) == (if size.len()
            >= 2 {
            Some((pixels(size[0], 1280), pixels(size[1], 720)))
        } else {
            None
        }),
        req.get("viewport"@) is None || !(req.get("viewport"@)->Some_0 is List) ==> asked_size(
            req,
        ) is None,
{
}

/// Tells whether a member of a document is a text.
pub open spec fn has_text(json: JsonView, key: Seq<char>) -> bool {
    json.get(key) is Some && json.get(key)->Some_0 is Text
}

/// A client shows what it was answered: a failure before anything else, then bytes,
/// with the file that they are for and what they are, then a text, and otherwise
/// nothing.
pub proof fn law_answers_are_shown(answer: JsonView, bytes: Seq<u8>, text: Seq<char>)
    ensures
        answer.get("error"@) is Some ==> shown(answer) == Err::<OutputView, Seq<char>>(
            json_text(answer.get("error"@)->Some_0),
        ),
        answer.get("error"@) is None && answer.get("data_b64"@) == Some(JsonView::Text(text))
            && base64_bytes(text) == Ok::<Seq<u8>, Seq<char>>(bytes) ==> shown(answer) == Ok::<
            OutputView,
            Seq<char>,
        >(
            OutputView::Bytes(
                bytes,
                if answer.get("out"@) is Some && answer.get("out"@)->Some_0 is Text && answer.get(
                    "out"@,
                )->Some_0->Text_0.len() > 0 {
                    Some(answer.get("out"@)->Some_0->Text_0)
                } else {
                    None
                },
                if answer.get("kind"@) is Some && answer.get("kind"@)->Some_0 is Text {
                    answer.get("kind"@)->Some_0->Text_0
                } else {
                    "output"@
                },
            ),
        ),
        answer.get("error"@) is None && answer.get("data_b64"@) == Some(JsonView::Text(text))
            && base64_bytes(text) is Err ==> shown(answer) == Err::<OutputView, Seq<char>>(
            base64_bytes(text)->Err_0,
        ),
        answer.get("error"@) is None && !has_text(answer, "data_b64"@) && answer.get("text"@)
            == Some(JsonView::Text(text)) ==> shown(answer) == Ok::<OutputView, Seq<char>>(
            OutputView::Text(text),
        ),
        answer.get("error"@) is None && !has_text(answer, "data_b64"@) && !has_text(
            answer,
            "text"@,
        ) ==> shown(answer) == Ok::<OutputView, Seq<char>>(OutputView::Nothing),
{
}

/// A client shows what its script said, text by text, or the failure.
pub proof fn law_script_answers_are_shown(answer: JsonView, items: Seq<JsonView>, key: Seq<char>)
    ensures
        answer.get("error"@) is Some ==> script_shown(answer) == Err::<
            Seq<Seq<char>>,
            Seq<char>,
        >(json_text(answer.get("error"@)->Some_0)),
        answer.get("error"@) is None && answer.get("outputs"@) == Some(JsonView::List(items))
            ==> script_shown(answer) == Ok::<Seq<Seq<char>>, Seq<char>>(only_texts(items)),
        answer.get("error"@) is None && (answer.get("outputs"@) is None || !(answer.get(
            "outputs"@,
        )->Some_0 is List)) ==> script_shown(answer) == Ok::<Seq<Seq<char>>, Seq<char>>(
            Seq::empty(),
        ),
        answer.get(key) == Some(JsonView::List(items)) ==> member_texts(answer, key) == only_texts(
            items,
        ),
{
}

/// Bytes go to the file that is named, and the user is told what was saved where;
/// where none is named, they go to the standard output.
pub proof fn law_bytes_go_where_they_are_for(path: Seq<char>, kind: Seq<char>)
    ensures
        path.len() > 0 ==> destination(Some(path), kind) == DestinationView::File(
            path,
            kind + " saved: "@ + path,
        ),
        path.len() == 0 ==> destination(Some(path), kind) == DestinationView::Stdout,
        destination(None, kind) == DestinationView::Stdout,
{
}

/// What a client does for a daemon follows from what it sees: it looks again after
/// it started one or paused, pauses for twenty milliseconds, and gives up after
/// thirty seconds.
pub proof fn law_errands(started: bool, nanos: u128)
    ensures
        errand(started, Sight::Answers(true)) == Ok::<Errand, Error>(Errand::Done),
        errand(false, Sight::Answers(false)) == Ok::<Errand, Error>(Errand::Start),
        errand(true, Sight::Answers(false)) == Ok::<Errand, Error>(Errand::CheckClock),
        errand(started, Sight::Started) == Ok::<Errand, Error>(Errand::CheckDaemon),
        errand(started, Sight::Paused) == Ok::<Errand, Error>(Errand::CheckDaemon),
        errand(started, Sight::Elapsed(nanos)) == (if nanos > 30_000_000_000 {
            Err(Error::DaemonNotStarted)
        } else {
            Ok(Errand::Pause(20))
        }),
        started_after(true, Sight::Elapsed(nanos)),
        started_after(started, Sight::Answers(false)),
        started_after(started, Sight::Answers(true)) == started,
        started_after(started, Sight::Started) == started,
        started_after(started, Sight::Paused) == started,
        started_after(started, Sight::Elapsed(nanos)) == started,
{
}

/// What there is to show, to save and to do is seen as it is.
pub proof fn law_outputs_are_seen_as_they_are(
    bytes: Vec<u8>,
    out: Option<String>,
    a: String,
    b: String,
    lines: Vec<String>,
    action: Action,
    w: u32,
    h: u32,
)
    ensures
        Output::Bytes(bytes, out, a)@ == OutputView::Bytes(
            bytes@,
            match out {
                Some(path) => Some(path@),
                None => None,
            },
            a@,
        ),
        Output::Text(a)@ == OutputView::Text(a@),
        Output::Nothing@ == OutputView::Nothing,
        Destination::File(a, b)@ == DestinationView::File(a@, b@),
        Destination::Stdout@ == DestinationView::Stdout,
        Wanted::Stop@ == WantedView::Stop,
        Wanted::Page(action)@ == WantedView::Page(action@),
        Wanted::Script(lines)@ matches WantedView::Script(seen) && seen.len() == lines@.len() && (
        forall|i: int| 0 <= i < seen.len() ==> #[trigger] seen[i] == lines@[i]@),
        Action::Navigate(a)@ == ActionView::Navigate(a@),
        Action::Eval(a)@ == ActionView::Eval(a@),
        Action::Click(a)@ == ActionView::Click(a@),
        Action::Type(a, b)@ == ActionView::Type(a@, b@),
        Action::Screenshot(out, b)@ == ActionView::Screenshot(
            match out {
                Some(path) => Some(path@),
                None => None,
            },
            b@,
        ),
        Action::Pdf(out)@ == ActionView::Pdf(
            match out {
                Some(path) => Some(path@),
                None => None,
            },
        ),
        Action::Wait(a)@ == ActionView::Wait(a@),
        Action::Title@ == ActionView::Title,
        Action::Content@ == ActionView::Content,
        Action::Viewport(w, h)@ == ActionView::Viewport(w, h),
{
}

} // verus!
