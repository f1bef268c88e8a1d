//! The client of the daemon.
use vstd::prelude::*;

use crate::args::Args;
use crate::args::ArgsView;
use crate::codec::base64_bytes;
use crate::codec::base64_decode;
use crate::error::told;
use crate::error::Error;
use crate::json::items_view;
use crate::json::json_parsed;
use crate::json::json_text;
use crate::json::lemma_list_view;
use crate::json::lemma_plain_object;
use crate::json::object;
use crate::json::plain;
use crate::json::Json;
use crate::json::JsonView;
use crate::json::Members;
use crate::script::opt_string;
use crate::session::opt_text;
use crate::text::texts;

verus! {

/// The time in which a new daemon has to answer, in nanoseconds.
pub const DAEMON_LIMIT: u128 = 30_000_000_000;

/// The pause between two looks for the daemon, in milliseconds.
pub const DAEMON_PAUSE: u64 = 20;

/// What was seen of the daemon.
#[derive(Debug, PartialEq, Eq, Clone, Copy)]
pub enum Sight {
    /// Whether it answers.
    Answers(bool),
    /// It was started.
    Started,
    /// So much time has passed since it was started, in nanoseconds.
    Elapsed(u128),
    /// The pause is over.
    Paused,
}

/// What to do to have a daemon.
#[derive(Debug, PartialEq, Eq, Clone, Copy)]
pub enum Errand {
    /// Nothing more.
    Done,
    /// Start a daemon.
    Start,
    /// See whether the daemon answers.
    CheckDaemon,
    /// Look at the clock.
    CheckClock,
    /// Pause for so many milliseconds.
    Pause(u64),
}

/// What to do to have a daemon, once this was seen. A daemon is started once, and
/// only where none answers.
pub open spec fn errand(started: bool, sight: Sight) -> Result<Errand, Error> {
    match sight {
        Sight::Answers(answers) => if answers {
            Ok(Errand::Done)
        } else if started {
            Ok(Errand::CheckClock)
        } else {
            Ok(Errand::Start)
        },
        Sight::Started => Ok(Errand::CheckDaemon),
        Sight::Elapsed(nanos) => if nanos > DAEMON_LIMIT {
            Err(Error::DaemonNotStarted)
        } else {
            Ok(Errand::Pause(DAEMON_PAUSE))
        },
        Sight::Paused => Ok(Errand::CheckDaemon),
    }
}

/// Whether a daemon was started, once this was seen too.
pub open spec fn started_after(started: bool, sight: Sight) -> bool {
    started || errand(started, sight) == Ok::<Errand, Error>(Errand::Start)
}

/// Says what to do to have a daemon, and keeps in mind whether one was started. It
/// begins with a look for one, and with none started.
pub fn ensure_daemon(started: &mut bool, sight: Sight) -> (out: Result<Errand, Error>)
    ensures
        out == errand(*old(started), sight),
        *final(started) == started_after(*old(started), sight),
{
    match sight {
        Sight::Answers(answers) => if answers {
            Ok(Errand::Done)
        } else if *started {
            Ok(Errand::CheckClock)
        } else {
            *started = true;
            Ok(Errand::Start)
        },
        Sight::Started => Ok(Errand::CheckDaemon),
        Sight::Elapsed(nanos) => if nanos > DAEMON_LIMIT {
            Err(Error::DaemonNotStarted)
        } else {
            Ok(Errand::Pause(DAEMON_PAUSE))
        },
        Sight::Paused => Ok(Errand::CheckDaemon),
    }
}

/// A list of texts.
pub open spec fn text_list(items: Seq<Seq<char>>) -> JsonView {
    JsonView::List(items.map_values(|s: Seq<char>| JsonView::Text(s)))
}

/// The document of a viewport: nothing where there is none.
pub open spec fn viewport_json(viewport: Option<(u32, u32)>) -> JsonView {
    match viewport {
        Some((w, h)) => JsonView::List(
            seq![JsonView::Integer(w as int), JsonView::Integer(h as int)],
        ),
        None => JsonView::Null,
    }
}

/// The request that has the daemon run a command.
pub open spec fn command_request(args: ArgsView) -> JsonView {
    object(
        seq![
            ("cmd"@, JsonView::Text(args.command)),
            ("args"@, text_list(args.cmd_args)),
            ("timeout"@, JsonView::Integer(args.timeout as int)),
            ("viewport"@, viewport_json(args.viewport)),
        ],
    )
}

/// The request that has the daemon run a script. It names a viewport only where
/// one was asked for.
pub open spec fn script_request_of(
    lines: Seq<Seq<char>>,
    timeout: u64,
    viewport: Option<(u32, u32)>,
) -> JsonView {
    let head = seq![
        ("cmd"@, JsonView::Text("script"@)),
        ("lines"@, text_list(lines)),
        ("timeout"@, JsonView::Integer(timeout as int)),
    ];
    match viewport {
        Some(_) => object(head.push(("viewport"@, viewport_json(viewport)))),
        None => object(head),
    }
}

/// The request that stops the daemon.
pub open spec fn stop_request_of() -> JsonView {
    object(seq![("cmd"@, JsonView::Text("stop"@))])
}

/// The name of the script file: empty where the command line names none.
pub open spec fn script_name(args: ArgsView) -> Seq<char> {
    if args.cmd_args.len() > 0 {
        args.cmd_args[0]
    } else {
        Seq::empty()
    }
}

/// What a client has to show for a command.
#[derive(Debug, PartialEq, Eq)]
pub enum Output {
    /// Bytes, the file to write them to, and what they are.
    Bytes(Vec<u8>, Option<String>, String),
    /// A text.
    Text(String),
    /// Nothing.
    Nothing,
}

/// What a client has to show for a command.
pub enum OutputView {
    Bytes(Seq<u8>, Option<Seq<char>>, Seq<char>),
    Text(Seq<char>),
    Nothing,
}

impl View for Output {
    type V = OutputView;

    open spec fn view(&self) -> OutputView {
        match self {
            Output::Bytes(bytes, out, kind) => OutputView::Bytes(bytes@, opt_string(*out), kind@),
            Output::Text(text) => OutputView::Text(text@),
            Output::Nothing => OutputView::Nothing,
        }
    }
}

/// A text that is not empty.
pub open spec fn non_empty(text: Option<Seq<char>>) -> Option<Seq<char>> {
    match text {
        Some(s) => if s.len() > 0 {
            Some(s)
        } else {
            None
        },
        None => None,
    }
}

/// A text, or another where there is none.
pub open spec fn text_or(text: Option<Seq<char>>, other: Seq<char>) -> Seq<char> {
    match text {
        Some(s) => s,
        None => other,
    }
}

/// What a client has to show for an answer that holds these bytes.
pub open spec fn shown_bytes(bytes: Seq<u8>, answer: JsonView) -> OutputView {
    OutputView::Bytes(
        bytes,
        non_empty(answer.get_str("out"@)),
        text_or(answer.get_str("kind"@), "output"@),
    )
}

/// What a client has to show for the answer to a command.
pub open spec fn shown(answer: JsonView) -> Result<OutputView, Seq<char>> {
    match answer.get("error"@) {
        Some(error) => Err(json_text(error)),
        None => match answer.get_str("data_b64"@) {
            Some(data) => match base64_bytes(data) {
                Ok(bytes) => Ok(shown_bytes(bytes, answer)),
                Err(message) => Err(message),
            },
            None => match answer.get_str("text"@) {
                Some(text) => Ok(OutputView::Text(text)),
                None => Ok(OutputView::Nothing),
            },
        },
    }
}

/// The texts among documents.
pub open spec fn only_texts(items: Seq<JsonView>) -> Seq<Seq<char>>
    decreases items.len(),
{
    if items.len() == 0 {
        Seq::empty()
    } else {
        let before = only_texts(items.drop_last());
        match items.last().as_str() {
            Some(s) => before.push(s),
            None => before,
        }
    }
}

/// The texts in a member that is a list.
pub open spec fn member_texts(json: JsonView, key: Seq<char>) -> Seq<Seq<char>> {
    match json.get(key) {
        Some(member) => match member.as_array() {
            Some(items) => only_texts(items),
            None => Seq::empty(),
        },
        None => Seq::empty(),
    }
}

/// What a client has to show for the answer to a script, line by line.
pub open spec fn script_shown(answer: JsonView) -> Result<Seq<Seq<char>>, Seq<char>> {
    match answer.get("error"@) {
        Some(error) => Err(json_text(error)),
        None => Ok(member_texts(answer, "outputs"@)),
    }
}

/// Where bytes go.
#[derive(Debug, PartialEq, Eq)]
pub enum Destination {
    /// To a file; then the user is told this.
    File(String, String),
    /// To the standard output.
    Stdout,
}

/// Where bytes go.
pub enum DestinationView {
    File(Seq<char>, Seq<char>),
    Stdout,
}

impl View for Destination {
    type V = DestinationView;

    open spec fn view(&self) -> DestinationView {
        match self {
            Destination::File(path, notice) => DestinationView::File(path@, notice@),
            Destination::Stdout => DestinationView::Stdout,
        }
    }
}

/// Where bytes go: to the standard output where no file is named.
pub open spec fn destination(out: Option<Seq<char>>, kind: Seq<char>) -> DestinationView {
    match non_empty(out) {
        Some(path) => DestinationView::File(path, kind + " saved: "@ + path),
        None => DestinationView::Stdout,
    }
}

/// Makes a document of texts.
pub(crate) fn list_of(items: &Vec<String>) -> (out: Json)
    ensures
        out@ == text_list(texts(items@)),
{
    broadcast use lemma_list_view;

    let mut list: Vec<Json> = Vec::new();
    let n: usize = items.len();
    let mut i: usize = 0;
    while i < n
        invariant
            n == items@.len(),
            i <= n,
            list@.len() == i,
            forall|j: int| 0 <= j < i ==> (#[trigger] list@[j])@ == JsonView::Text(items@[j]@),
        decreases n - i,
    {
        list.push(Json::from_text(items[i].as_str()));
        i = i + 1;
    }
    assert(items_view(list@) =~= texts(items@).map_values(|s: Seq<char>| JsonView::Text(s)));
    Json::List(list)
}

fn size_of(viewport: Option<(u32, u32)>) -> (out: Json)
    ensures
        out@ == viewport_json(viewport),
{
    broadcast use lemma_list_view;

    match viewport {
        Some((w, h)) => {
            let mut size: Vec<Json> = Vec::new();
            size.push(Json::from_number(w as u64));
            size.push(Json::from_number(h as u64));
            assert(items_view(size@) =~= seq![
                JsonView::Integer(w as int),
                JsonView::Integer(h as int),
            ]);
            Json::List(size)
        },
        None => Json::Null,
    }
}

/// The request that has the daemon run a command.
pub fn request(args: &Args) -> (out: Json)
    ensures
        out@ == command_request(args@),
{
    let entries = Members::new().with("cmd", Json::from_text(args.command.as_str())).with(
        "args",
        list_of(&args.cmd_args),
    ).with("timeout", Json::from_number(args.timeout)).with("viewport", size_of(args.viewport));
    assert(entries@ =~= seq![
        ("cmd"@, JsonView::Text(args@.command)),
        ("args"@, text_list(args@.cmd_args)),
        ("timeout"@, JsonView::Integer(args@.timeout as int)),
        ("viewport"@, viewport_json(args@.viewport)),
    ]);
    entries.object()
}

/// The request that has the daemon run a script.
pub fn script_request(lines: &Vec<String>, timeout: u64, viewport: Option<(u32, u32)>) -> (out:
    Json)
    ensures
        out@ == script_request_of(texts(lines@), timeout, viewport),
{
    let entries = Members::new().with("cmd", Json::from_text("script")).with(
        "lines",
        list_of(lines),
    ).with("timeout", Json::from_number(timeout));
    assert(entries@ =~= seq![
        ("cmd"@, JsonView::Text("script"@)),
        ("lines"@, text_list(texts(lines@))),
        ("timeout"@, JsonView::Integer(timeout as int)),
    ]);
    if viewport.is_some() {
        entries.with("viewport", size_of(viewport)).object()
    } else {
        entries.object()
    }
}

/// The request that stops the daemon.
pub fn stop_request() -> (out: Json)
    ensures
        out@ == stop_request_of(),
{
    let entries = Members::new().with("cmd", Json::from_text("stop"));
    assert(entries@ =~= seq![("cmd"@, JsonView::Text("stop"@))]);
    entries.object()
}

/// The name of the script file.
pub fn script_file(args: &Args) -> (out: String)
    ensures
        out@ == script_name(args@),
{
    if args.cmd_args.len() > 0 {
        args.cmd_args[0].clone()
    } else {
        String::new()
    }
}

/// The line that carries a document between client and daemon. It reads back as
/// the document where no fractional number and no deep nesting stands in the way.
pub fn json_line(json: Json) -> (line: String)
    ensures
        line@ == json_text(json@).push('\n'),
        !json_text(json@).contains('\n'),
        plain(json@, 127) ==> json_parsed(line@) == Ok::<JsonView, Seq<char>>(json@),
{
    let mut line = json.into_text();
    line.push('\n');
    line
}

fn refusal(answer: &Json) -> (out: Option<Error>)
    ensures
        match out {
            Some(error) => {
                &&& answer@.get("error"@) matches Some(said)
                &&& error == Error::Daemon(error->Daemon_0)
                &&& error.text() == json_text(said)
            },
            None => answer@.get("error"@) is None,
        },
{
    match answer.get("error") {
        Some(error) => Some(Error::Daemon(error.clone().into_text())),
        None => None,
    }
}

/// What there is to show for an answer that holds these bytes.
pub fn show_bytes(bytes: Vec<u8>, answer: &Json) -> (out: Output)
    ensures
        out@ == shown_bytes(bytes@, answer@),
{
    let out = match answer.get_str("out") {
        Some(path) => if path.is_empty() {
            None
        } else {
            Some(path.to_owned())
        },
        None => None,
    };
    let kind = match answer.get_str("kind") {
        Some(kind) => kind.to_owned(),
        None => "output".to_owned(),
    };
    Output::Bytes(bytes, out, kind)
}

/// What there is to show for the answer to a command.
pub fn show(answer: &Json) -> (out: Result<Output, Error>)
    ensures
        told(out) == shown(answer@),
{
    if let Some(error) = refusal(answer) {
        return Err(error);
    }
    match answer.get_str("data_b64") {
        Some(data) => match base64_decode(data) {
            Ok(bytes) => Ok(show_bytes(bytes, answer)),
            Err(message) => Err(Error::Other(message)),
        },
        None => match answer.get_str("text") {
            Some(text) => Ok(Output::Text(text.to_owned())),
            None => Ok(Output::Nothing),
        },
    }
}

/// The texts in a member that is a list.
pub(crate) fn texts_in(json: &Json, key: &str) -> (out: Vec<String>)
    ensures
        texts(out@) == member_texts(json@, key@),
{
    let mut out: Vec<String> = Vec::new();
    assert(texts(out@) =~= Seq::<Seq<char>>::empty());
    if let Some(member) = json.get(key) {
        if let Some(items) = member.as_array() {
            let ghost all = items_view(items@);
            let n: usize = items.len();
            let mut i: usize = 0;
            assert(all.take(0) =~= Seq::<JsonView>::empty());
            while i < n
                invariant
                    n == items@.len(),
                    i <= n,
                    all == items_view(items@),
                    texts(out@) == only_texts(all.take(i as int)),
                decreases n - i,
            {
                proof {
                    assert(all.take(i + 1).drop_last() =~= all.take(i as int));
                    assert(all.take(i + 1).last() == items@[i as int]@);
                }
                if let Some(s) = items[i].as_str() {
                    let item = s.to_owned();
                    assert(texts(out@.push(item)) =~= texts(out@).push(item@));
                    out.push(item);
                }
                i = i + 1;
            }
            assert(all.take(n as int) =~= all);
        }
    }
    out
}

/// What there is to show for the answer to a script, line by line.
pub fn show_script(answer: &Json) -> (out: Result<Vec<String>, Error>)
    ensures
        match out {
            Ok(found) => script_shown(answer@) == Ok::<Seq<Seq<char>>, Seq<char>>(texts(found@)),
            Err(error) => script_shown(answer@) == Err::<Seq<Seq<char>>, Seq<char>>(error.text()),
        },
{
    if let Some(error) = refusal(answer) {
        return Err(error);
    }
    Ok(texts_in(answer, "outputs"))
}

/// Where bytes go.
pub fn write_bytes(out: Option<&str>, kind: &str) -> (plan: Destination)
    ensures
        plan@ == destination(opt_text(out), kind@),
{
    match out {
        Some(path) => if path.is_empty() {
            Destination::Stdout
        } else {
            let mut notice = kind.to_owned();
            notice.append(" saved: ");
            notice.append(path);
            Destination::File(path.to_owned(), notice)
        },
        None => Destination::Stdout,
    }
}

/// A daemon is started only where none answers and none was started before.
pub proof fn law_one_daemon_is_started(started: bool, sight: Sight)
    ensures
        errand(started, sight) == Ok::<Errand, Error>(Errand::Start) <==> !started && sight
            == Sight::Answers(false),
        errand(started, sight) == Ok::<Errand, Error>(Errand::Done) <==> sight == Sight::Answers(
            true,
        ),
{
}

/// How often a daemon is started while these sights follow one another.
pub open spec fn starts(started: bool, sights: Seq<Sight>) -> nat
    decreases sights.len(),
{
    if sights.len() == 0 {
        0
    } else {
        let now: nat = if errand(started, sights[0]) == Ok::<Errand, Error>(Errand::Start) {
            1
        } else {
            0
        };
        now + starts(started_after(started, sights[0]), sights.skip(1))
    }
}

/// Whatever is seen, a client starts at most one daemon, and none where it started
/// one before.
pub proof fn law_at_most_one_daemon(started: bool, sights: Seq<Sight>)
    ensures
        starts(started, sights) <= 1,
        started ==> starts(started, sights) == 0,
    decreases sights.len(),
{
    if sights.len() > 0 {
        law_at_most_one_daemon(started_after(started, sights[0]), sights.skip(1));
    }
}

/// A list of texts is plain.
pub proof fn lemma_plain_texts(items: Seq<Seq<char>>, depth: nat)
    ensures
        plain(text_list(items), depth + 1),
{
    reveal_with_fuel(plain, 2);
}

/// Every request can be read back from the line that carries it.
pub proof fn law_requests_are_plain(args: ArgsView, lines: Seq<Seq<char>>, timeout: u64)
    ensures
        plain(command_request(args), 127),
        plain(script_request_of(lines, timeout, args.viewport), 127),
        plain(stop_request_of(), 127),
{
    lemma_plain_texts(args.cmd_args, 125);
    lemma_plain_texts(lines, 125);
    assert(plain(viewport_json(args.viewport), 126)) by {
        reveal_with_fuel(plain, 2);
    }
    lemma_plain_object(
        seq![
            ("cmd"@, JsonView::Text(args.command)),
            ("args"@, text_list(args.cmd_args)),
            ("timeout"@, JsonView::Integer(args.timeout as int)),
            ("viewport"@, viewport_json(args.viewport)),
        ],
        126,
    );
    let head = seq![
        ("cmd"@, JsonView::Text("script"@)),
        ("lines"@, text_list(lines)),
        ("timeout"@, JsonView::Integer(timeout as int)),
    ];
    lemma_plain_object(head, 126);
    lemma_plain_object(head.push(("viewport"@, viewport_json(args.viewport))), 126);
    lemma_plain_object(seq![("cmd"@, JsonView::Text("stop"@))], 126);
}

} // verus!
