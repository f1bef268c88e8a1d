//! The daemon: what it does for a client, step by step.
use vstd::prelude::*;

use crate::args::ArgsView;
use crate::client::command_request;
use crate::client::destination;
use crate::client::lemma_plain_texts;
use crate::client::list_of;
use crate::client::non_empty;
use crate::client::script_request_of;
use crate::client::script_shown;
use crate::client::shown;
use crate::client::text_list;
use crate::client::text_or;
use crate::client::write_bytes;
use crate::client::Destination;
use crate::client::DestinationView;
use crate::client::OutputView;
use crate::codec::base64_bytes;
use crate::codec::base64_encode;
use crate::codec::base64_text;
use crate::codec::encodable;
use crate::error::joined;
use crate::error::Error;
use crate::json::json_text;
use crate::json::lemma_plain_object;
use crate::json::members;
use crate::json::object;
use crate::json::plain;
use crate::json::Json;
use crate::json::JsonView;
use crate::json::Members;
use crate::page::click_commands;
use crate::page::data;
use crate::page::eval_command;
use crate::page::evaluation;
use crate::page::navigate_command;
use crate::page::pdf_command;
use crate::page::position;
use crate::page::position_script;
use crate::page::screenshot_command;
use crate::page::selected;
use crate::page::short_position;
use crate::page::type_commands;
use crate::page::viewport_command;
use crate::page::wait_script;
use crate::page::Page;
use crate::page::Position;
use crate::request::asked_size;
use crate::request::law_request_reads_back;
use crate::request::law_script_reads_back;
use crate::request::lemma_only_texts;
use crate::request::read_request;
use crate::request::readable;
use crate::request::request_timeout;
use crate::request::short_viewport;
use crate::request::size_asked;
use crate::request::timeout_of;
use crate::request::wanted;
use crate::request::Wanted;
use crate::request::WantedView;
use crate::script::opt_string;
use crate::script::parse_script_line;
use crate::script::script_action;
use crate::script::words;
use crate::script::Action;
use crate::script::ActionView;
use crate::session::batch_bytes;
use crate::session::batch_result;
use crate::session::batch_results;
use crate::session::command_result;
use crate::session::law_batch_needs_every_answer;
use crate::session::replies_view;
use crate::session::waited_for;
use crate::session::Reply;
use crate::session::ReplyView;
use crate::session::Sent;
use crate::session::Session;
use crate::session::SessionView;
use crate::text::decimal;
use crate::text::decimal_text;
use crate::text::texts;

verus! {

/// The time in which a command has to be answered, in seconds.
pub const COMMAND_LIMIT: u64 = 60;

/// The time that the answer to a long wait may take beyond the wait itself, in
/// seconds.
pub const WAIT_MARGIN: u64 = 10;

/// The time in which each command of a batch has to be answered, and in which the
/// document of a page is waited for, in seconds.
pub const BATCH_LIMIT: u64 = 10;

/// What a job is waiting for.
#[derive(Debug, PartialEq, Eq, Clone, Copy)]
pub enum Stage {
    /// The answer to the command that sets the viewport that a request asks for.
    Sizing,
    /// The answer to the command that goes to an address, with this subscription
    /// to the event that tells that the document is there.
    Navigating(u64),
    /// The answer to the first command of another action.
    Answering,
    /// The event that tells that the document is there.
    Loading,
    /// The answers to the commands that click and type.
    Pressing,
    /// That bytes are saved.
    Saving,
}

/// What is left of a script, and what it said so far.
#[derive(Debug, PartialEq, Eq)]
pub struct Script {
    rest: Vec<String>,
    outputs: Vec<String>,
}

/// What is left of a script, and what it said so far.
pub ghost struct ScriptView {
    pub rest: Seq<Seq<char>>,
    pub outputs: Seq<Seq<char>>,
}

impl View for Script {
    type V = ScriptView;

    closed spec fn view(&self) -> ScriptView {
        ScriptView { rest: texts(self.rest@), outputs: texts(self.outputs@) }
    }
}

/// What an optional script says.
pub open spec fn opt_script(script: Option<Script>) -> Option<ScriptView> {
    match script {
        Some(script) => Some(script@),
        None => None,
    }
}

/// Something that is being done for a client: an action, alone or in a script.
#[derive(Debug, PartialEq, Eq)]
pub struct Job {
    action: Action,
    stage: Stage,
    timeout: u64,
    script: Option<Script>,
}

/// Something that is being done for a client.
pub ghost struct JobView {
    pub action: ActionView,
    pub stage: Stage,
    pub timeout: u64,
    pub script: Option<ScriptView>,
}

impl View for Job {
    type V = JobView;

    closed spec fn view(&self) -> JobView {
        JobView {
            action: self.action@,
            stage: self.stage,
            timeout: self.timeout,
            script: opt_script(self.script),
        }
    }
}

/// What happened while a job was waiting.
#[derive(Debug, PartialEq)]
pub enum Event {
    /// These are the answers, in the order of the commands.
    Replies(Vec<Reply>),
    /// The commands could not be sent.
    TransportClosed,
    /// The wait for the document is over.
    Loaded,
    /// The bytes are saved, or could not be saved for this reason.
    Saved(Option<String>),
}

/// What happened while a job was waiting.
pub enum EventView {
    Replies(Seq<ReplyView>),
    TransportClosed,
    Loaded,
    Saved(Option<Seq<char>>),
}

impl View for Event {
    type V = EventView;

    open spec fn view(&self) -> EventView {
        match self {
            Event::Replies(replies) => EventView::Replies(replies_view(replies@)),
            Event::TransportClosed => EventView::TransportClosed,
            Event::Loaded => EventView::Loaded,
            Event::Saved(failure) => EventView::Saved(opt_string(*failure)),
        }
    }
}

/// What the daemon is to do next for a client.
#[derive(Debug, PartialEq)]
pub enum Next {
    /// Answer the client: the job is done.
    Respond(Json),
    /// Answer the client and stop.
    Stop(Json),
    /// Send commands, and wait so many seconds for the answer to each.
    Exchange(Job, Sent, u64),
    /// Wait so many seconds for the event of a subscription.
    Await(Job, u64, u64),
    /// Save bytes.
    Save(Job, Destination, Vec<u8>),
}

/// What the daemon is to do next for a client.
pub enum NextView {
    Respond(JsonView),
    Stop(JsonView),
    Exchange(JobView, Seq<u64>, Seq<u8>, u64),
    Await(JobView, u64, u64),
    Save(JobView, DestinationView, Seq<u8>),
}

impl View for Next {
    type V = NextView;

    open spec fn view(&self) -> NextView {
        match self {
            Next::Respond(json) => NextView::Respond(json@),
            Next::Stop(json) => NextView::Stop(json@),
            Next::Exchange(job, sent, seconds) => NextView::Exchange(
                job@,
                sent.ids@,
                sent.bytes@,
                *seconds,
            ),
            Next::Await(job, token, seconds) => NextView::Await(job@, *token, *seconds),
            Next::Save(job, to, bytes) => NextView::Save(job@, to@, bytes@),
        }
    }
}

/// The answer that is a text.
pub open spec fn text_answer(text: Seq<char>) -> JsonView {
    object(seq![("text"@, JsonView::Text(text))])
}

/// The answer that is a failure.
pub open spec fn error_answer(message: Seq<char>) -> JsonView {
    object(seq![("error"@, JsonView::Text(message))])
}

/// The answer to a script.
pub open spec fn outputs_answer(outputs: Seq<Seq<char>>) -> JsonView {
    object(seq![("outputs"@, text_list(outputs))])
}

/// The answer to a request to stop.
pub open spec fn stop_answer() -> JsonView {
    object(seq![("ok"@, JsonView::Bool(true))])
}

/// The answer that is bytes in base64, with the file to write and what they are.
pub open spec fn data_answer(
    encoded: Seq<char>,
    out: Option<Seq<char>>,
    kind: Seq<char>,
) -> JsonView {
    object(
        seq![
            ("data_b64"@, JsonView::Text(encoded)),
            ("out"@, JsonView::Text(text_or(out, Seq::empty()))),
            ("kind"@, JsonView::Text(kind)),
        ],
    )
}

/// The answer that is bytes, with the file to write and what they are.
pub open spec fn bytes_answer(bytes: Seq<u8>, out: Option<Seq<char>>, kind: Seq<char>) -> JsonView {
    data_answer(base64_text(bytes), out, kind)
}

/// The first command of an action.
pub open spec fn first_command(action: ActionView, timeout: u64) -> (Seq<char>, JsonView) {
    match action {
        ActionView::Navigate(url) => navigate_command(url),
        ActionView::Eval(expr) => eval_command(expr),
        ActionView::Click(selector) => eval_command(position_script(selector)),
        ActionView::Type(selector, _) => eval_command(position_script(selector)),
        ActionView::Screenshot(_, format) => screenshot_command(format),
        ActionView::Pdf(_) => pdf_command(),
        ActionView::Wait(selector) => eval_command(wait_script(selector, timeout)),
        ActionView::Title => eval_command("document.title"@),
        ActionView::Content => eval_command("document.documentElement.outerHTML"@),
        ActionView::Viewport(w, h) => viewport_command(w, h),
    }
}

/// The time in which the first command of an action has to be answered, in seconds:
/// for a wait that takes as long as that itself, the time of the wait and a margin.
pub open spec fn first_limit(action: ActionView, timeout: u64) -> u64 {
    if action is Wait && timeout / 1000 >= COMMAND_LIMIT {
        (timeout / 1000 + WAIT_MARGIN) as u64
    } else {
        COMMAND_LIMIT
    }
}

/// What is said when an action is done that says nothing of its own.
pub open spec fn done_text(action: ActionView) -> Seq<char> {
    match action {
        ActionView::Navigate(url) => "navigated: "@ + url,
        ActionView::Click(selector) => "clicked: "@ + selector,
        ActionView::Type(selector, _) => "typed into: "@ + selector,
        ActionView::Wait(selector) => "ready: "@ + selector,
        ActionView::Viewport(w, h) => "viewport: "@ + decimal(w as nat) + "x"@ + decimal(h as nat),
        _ => Seq::empty(),
    }
}

/// The file that an action writes.
pub open spec fn out_of(action: ActionView) -> Option<Seq<char>> {
    match action {
        ActionView::Screenshot(out, _) => out,
        ActionView::Pdf(out) => out,
        _ => None,
    }
}

/// What the bytes are that an action makes.
pub open spec fn kind_of(action: ActionView) -> Seq<char> {
    match action {
        ActionView::Screenshot(_, _) => "screenshot"@,
        _ => "page"@,
    }
}

/// The commands that an action sends once it knows the place of its element.
pub open spec fn press_commands(action: ActionView, x: JsonView, y: JsonView) -> Seq<
    (Seq<char>, JsonView),
> {
    match action {
        ActionView::Type(_, text) => type_commands(x, y, text),
        _ => click_commands(x, y),
    }
}

/// How many commands an action sends once it knows the place of its element.
pub open spec fn press_count(action: ActionView) -> nat {
    match action {
        ActionView::Type(_, _) => 4,
        _ => 3,
    }
}

/// How an action goes on.
pub enum Progress {
    /// The viewport is set, and it can begin.
    Sized,
    /// It clicks at a place.
    Press(JsonView, JsonView),
    /// It waits for the event of a subscription.
    Load(u64),
    /// It is done and says this.
    Said(Seq<char>),
    /// It is done and made these bytes.
    Made(Seq<u8>),
    /// It failed.
    Failed(Seq<char>),
}

/// How an action goes on once its first command has this result.
pub open spec fn answered(action: ActionView, result: JsonView) -> Progress {
    match action {
        ActionView::Navigate(_) | ActionView::Viewport(_, _) => Progress::Said(done_text(action)),
        ActionView::Screenshot(_, _) => match data(result, "no screenshot data"@) {
            Ok(bytes) => Progress::Made(bytes),
            Err(message) => Progress::Failed(message),
        },
        ActionView::Pdf(_) => match data(result, "no pdf data"@) {
            Ok(bytes) => Progress::Made(bytes),
            Err(message) => Progress::Failed(message),
        },
        _ => match evaluation(result) {
            Ok(value) => evaluated(action, value),
            Err(message) => Progress::Failed(message),
        },
    }
}

/// How an action goes on once its expression has this value.
pub open spec fn evaluated(action: ActionView, value: JsonView) -> Progress {
    match action {
        ActionView::Click(_) | ActionView::Type(_, _) => match position(value) {
            Ok((x, y)) => Progress::Press(x, y),
            Err(message) => Progress::Failed(message),
        },
        ActionView::Wait(selector) => match selected(value, selector) {
            Ok(_) => Progress::Said(done_text(action)),
            Err(message) => Progress::Failed(message),
        },
        ActionView::Eval(_) => Progress::Said(json_text(value)),
        _ => Progress::Said(text_or(value.as_str(), Seq::empty())),
    }
}

/// Tells whether an action can go on from this result of its first command: the
/// list that gives the place of an element holds both coordinates.
pub open spec fn placed(action: ActionView, result: JsonView) -> bool {
    match action {
        ActionView::Click(_) | ActionView::Type(_, _) => match evaluation(result) {
            Ok(value) => !short_position(value),
            Err(_) => true,
        },
        _ => true,
    }
}

impl JobView {
    /// Tells whether this can happen while the job is waiting.
    pub open spec fn accepts(self, event: EventView) -> bool {
        match self.stage {
            Stage::Sizing | Stage::Navigating(_) => match event {
                EventView::Replies(replies) => replies.len() == 1,
                EventView::TransportClosed => true,
                _ => false,
            },
            Stage::Answering => match event {
                EventView::Replies(replies) => replies.len() == 1 && match command_result(
                    first_command(self.action, self.timeout).0,
                    replies[0],
                ) {
                    Ok(result) => placed(self.action, result),
                    Err(_) => true,
                },
                EventView::TransportClosed => true,
                _ => false,
            },
            Stage::Loading => event is Loaded,
            Stage::Pressing => match event {
                EventView::Replies(replies) => waited_for(replies, press_count(self.action)),
                EventView::TransportClosed => true,
                _ => false,
            },
            Stage::Saving => event is Saved && self.script is Some,
        }
    }

    /// How the action goes on once this happened.
    pub open spec fn progress(self, event: EventView) -> Progress {
        match event {
            EventView::Replies(replies) => match self.stage {
                Stage::Sizing => match command_result(
                    "Emulation.setDeviceMetricsOverride"@,
                    replies[0],
                ) {
                    Ok(_) => Progress::Sized,
                    Err(message) => Progress::Failed(message),
                },
                Stage::Navigating(token) => match command_result("Page.navigate"@, replies[0]) {
                    Ok(_) => Progress::Load(token),
                    Err(message) => Progress::Failed(message),
                },
                Stage::Answering => match command_result(
                    first_command(self.action, self.timeout).0,
                    replies[0],
                ) {
                    Ok(result) => answered(self.action, result),
                    Err(message) => Progress::Failed(message),
                },
                _ => match batch_results(replies) {
                    Ok(_) => Progress::Said(done_text(self.action)),
                    Err(message) => Progress::Failed(message),
                },
            },
            EventView::TransportClosed => Progress::Failed("transport closed"@),
            _ => Progress::Said(done_text(self.action)),
        }
    }
}

/// A page and the conversation about it.
pub ghost struct Talk {
    pub session: SessionView,
    pub session_id: Seq<char>,
}

impl Talk {
    /// Sends commands for a job, which then waits for the answers.
    pub open spec fn exchange(
        self,
        job: JobView,
        messages: Seq<(Seq<char>, JsonView)>,
        seconds: u64,
    ) -> (NextView, SessionView) {
        (
            NextView::Exchange(
                job,
                self.session.ids(messages.len()),
                batch_bytes(self.session, messages, Some(self.session_id)),
                seconds,
            ),
            self.session.after(messages.len()),
        )
    }

    /// Begins an action: sends its first command. The event that tells that a
    /// document is there is subscribed to before the command that goes there.
    pub open spec fn begin(
        self,
        action: ActionView,
        timeout: u64,
        script: Option<ScriptView>,
    ) -> (NextView, SessionView) {
        let messages = seq![first_command(action, timeout)];
        let seconds = first_limit(action, timeout);
        if action is Navigate {
            let stage = Stage::Navigating(self.session.next_token);
            (Talk {
                session: self.session.subscribed("Page.domContentEventFired"@),
                ..self
            }).exchange(JobView { action, stage, timeout, script }, messages, seconds)
        } else {
            let stage = Stage::Answering;
            self.exchange(JobView { action, stage, timeout, script }, messages, seconds)
        }
    }

    /// Goes on with a script: its next line is read and begun, and where there is
    /// none left, the client is told what the script said.
    pub open spec fn go_on(self, script: ScriptView, timeout: u64) -> (NextView, SessionView) {
        if script.rest.len() == 0 {
            (NextView::Respond(outputs_answer(script.outputs)), self.session)
        } else {
            match script_action(words(script.rest[0])) {
                Ok(action) => self.begin(
                    action,
                    timeout,
                    Some(ScriptView { rest: script.rest.skip(1), ..script }),
                ),
                Err(message) => (NextView::Respond(error_answer(message)), self.session),
            }
        }
    }

    /// Sets the viewport before an action or a script begins.
    pub open spec fn resize(
        self,
        size: (u32, u32),
        action: ActionView,
        timeout: u64,
        script: Option<ScriptView>,
    ) -> (NextView, SessionView) {
        self.exchange(
            JobView { action, stage: Stage::Sizing, timeout, script },
            seq![viewport_command(size.0, size.1)],
            COMMAND_LIMIT,
        )
    }

    /// Begins what a request asks for. Where the request asks for a viewport too,
    /// that is set first.
    pub open spec fn start(self, req: JsonView) -> (NextView, SessionView) {
        let timeout = request_timeout(req);
        match wanted(req) {
            Ok(WantedView::Stop) => (NextView::Stop(stop_answer()), self.session),
            Ok(WantedView::Script(lines)) => {
                let script = ScriptView { rest: lines, outputs: Seq::empty() };
                match asked_size(req) {
                    Some(size) => self.resize(
                        size,
                        ActionView::Viewport(size.0, size.1),
                        timeout,
                        Some(script),
                    ),
                    None => self.go_on(script, timeout),
                }
            },
            Ok(WantedView::Page(action)) => match asked_size(req) {
                Some(size) => if action is Viewport {
                    self.begin(action, timeout, None)
                } else {
                    self.resize(size, action, timeout, None)
                },
                None => self.begin(action, timeout, None),
            },
            Err(message) => (NextView::Respond(error_answer(message)), self.session),
        }
    }

    /// Goes on with a job whose action goes on so.
    pub open spec fn follow(self, job: JobView, progress: Progress) -> (NextView, SessionView) {
        match progress {
            Progress::Sized => match job.script {
                Some(script) => self.go_on(script, job.timeout),
                None => self.begin(job.action, job.timeout, None),
            },
            Progress::Press(x, y) => self.exchange(
                JobView { stage: Stage::Pressing, ..job },
                press_commands(job.action, x, y),
                BATCH_LIMIT,
            ),
            Progress::Load(token) => (
                NextView::Await(JobView { stage: Stage::Loading, ..job }, token, BATCH_LIMIT),
                self.session,
            ),
            Progress::Said(text) => match job.script {
                Some(script) => self.go_on(
                    ScriptView { outputs: script.outputs.push(text), ..script },
                    job.timeout,
                ),
                None => (NextView::Respond(text_answer(text)), self.session),
            },
            Progress::Made(bytes) => match job.script {
                Some(_) => (
                    NextView::Save(
                        JobView { stage: Stage::Saving, ..job },
                        destination(out_of(job.action), kind_of(job.action)),
                        bytes,
                    ),
                    self.session,
                ),
                None => (
                    NextView::Respond(
                        bytes_answer(bytes, out_of(job.action), kind_of(job.action)),
                    ),
                    self.session,
                ),
            },
            Progress::Failed(message) => (
                NextView::Respond(error_answer(message)),
                self.session,
            ),
        }
    }

    /// Goes on with a job once this happened.
    pub open spec fn resume(self, job: JobView, event: EventView) -> (NextView, SessionView) {
        match event {
            EventView::Saved(failure) => match failure {
                Some(message) => (NextView::Respond(error_answer(message)), self.session),
                None => self.go_on(job.script->Some_0, job.timeout),
            },
            _ => self.follow(job, job.progress(event)),
        }
    }
}

/// The conversation about a page.
pub open spec fn talk(page: Page, session: SessionView) -> Talk {
    Talk { session, session_id: page.session_id@ }
}

fn single(key: &str, json: Json) -> (out: Json)
    ensures
        out@ == object(seq![(key@, json@)]),
{
    let entries = Members::new().with(key, json);
    assert(entries@ =~= seq![(key@, json@)]);
    entries.object()
}

/// The answer that is a text.
pub fn text_response(text: String) -> (answer: Json)
    ensures
        answer@ == text_answer(text@),
{
    single("text", Json::Text(text))
}

/// The answer that is a failure.
pub fn error_response(error: &Error) -> (answer: Json)
    ensures
        answer@ == error_answer(error.text()),
{
    single("error", Json::Text(error.message()))
}

/// The answer to a script.
pub fn outputs_response(outputs: &Vec<String>) -> (answer: Json)
    ensures
        answer@ == outputs_answer(texts(outputs@)),
{
    single("outputs", list_of(outputs))
}

/// The answer that is bytes in base64, with the file to write and what they are.
pub fn data_response(encoded: String, out: &Option<String>, kind: &str) -> (answer: Json)
    ensures
        answer@ == data_answer(encoded@, opt_string(*out), kind@),
{
    let path = match out {
        Some(path) => path.clone(),
        None => String::new(),
    };
    let entries = Members::new().with("data_b64", Json::Text(encoded)).with(
        "out",
        Json::Text(path),
    ).with("kind", Json::from_text(kind));
    assert(entries@ =~= seq![
        ("data_b64"@, JsonView::Text(encoded@)),
        ("out"@, JsonView::Text(text_or(opt_string(*out), Seq::empty()))),
        ("kind"@, JsonView::Text(kind@)),
    ]);
    entries.object()
}

/// The answer that is bytes, with the file to write and what they are. The client
/// gets the same bytes out of it.
pub fn bytes_response(bytes: &Vec<u8>, out: &Option<String>, kind: &str) -> (answer: Json)
    requires
        encodable(bytes@.len()),
    ensures
        answer@ == bytes_answer(bytes@, opt_string(*out), kind@),
        shown(answer@) == Ok::<OutputView, Seq<char>>(
            OutputView::Bytes(bytes@, non_empty(opt_string(*out)), kind@),
        ),
{
    let encoded = base64_encode(bytes.as_slice());
    proof {
        law_bytes_reach_the_client(bytes@, opt_string(*out), kind@);
    }
    data_response(encoded, out, kind)
}

fn first_method(action: &Action) -> (out: &'static str)
    ensures
        forall|timeout: u64| out@ == #[trigger] first_command(action@, timeout).0,
{
    match action {
        Action::Navigate(_) => "Page.navigate",
        Action::Screenshot(_, _) => "Page.captureScreenshot",
        Action::Pdf(_) => "Page.printToPDF",
        Action::Viewport(_, _) => "Emulation.setDeviceMetricsOverride",
        _ => "Runtime.evaluate",
    }
}

fn first_seconds(action: &Action, timeout: u64) -> (out: u64)
    ensures
        out == first_limit(action@, timeout),
{
    match action {
        Action::Wait(_) => if timeout / 1000 >= COMMAND_LIMIT {
            timeout / 1000 + WAIT_MARGIN
        } else {
            COMMAND_LIMIT
        },
        _ => COMMAND_LIMIT,
    }
}

fn done_message(action: &Action) -> (out: String)
    ensures
        out@ == done_text(action@),
{
    match action {
        Action::Navigate(url) => joined("navigated: ", url.as_str()),
        Action::Click(selector) => joined("clicked: ", selector.as_str()),
        Action::Type(selector, _) => joined("typed into: ", selector.as_str()),
        Action::Wait(selector) => joined("ready: ", selector.as_str()),
        Action::Viewport(w, h) => {
            let width = decimal_text(*w as u64);
            let height = decimal_text(*h as u64);
            let mut out = joined("viewport: ", width.as_str());
            out.append("x");
            out.append(height.as_str());
            out
        },
        _ => String::new(),
    }
}

/// How an action goes on.
enum Step {
    Sized,
    Press(Position),
    Load(u64),
    Said(String),
    Made(Vec<u8>),
    Failed(Error),
}

impl View for Step {
    type V = Progress;

    closed spec fn view(&self) -> Progress {
        match self {
            Step::Sized => Progress::Sized,
            Step::Press(pos) => Progress::Press(pos.x@, pos.y@),
            Step::Load(token) => Progress::Load(*token),
            Step::Said(text) => Progress::Said(text@),
            Step::Made(bytes) => Progress::Made(bytes@),
            Step::Failed(error) => Progress::Failed(error.text()),
        }
    }
}

impl Step {
    spec fn fits(self) -> bool {
        match self {
            Step::Made(bytes) => encodable(bytes@.len()),
            _ => true,
        }
    }
}

fn step_evaluated(action: &Action, value: Json) -> (out: Step)
    requires
        (action@ is Click || action@ is Type) ==> !short_position(value@),
    ensures
        out@ == evaluated(action@, value@),
        out.fits(),
{
    match action {
        Action::Click(_) | Action::Type(_, _) => match Page::position(value) {
            Ok(pos) => Step::Press(pos),
            Err(error) => Step::Failed(error),
        },
        Action::Wait(selector) => match Page::waited(&value, selector.as_str()) {
            Ok(_) => Step::Said(done_message(action)),
            Err(error) => Step::Failed(error),
        },
        Action::Eval(_) => Step::Said(value.into_text()),
        _ => match value.as_str() {
            Some(text) => Step::Said(text.to_owned()),
            None => Step::Said(String::new()),
        },
    }
}

fn step_answered(action: &Action, result: Json) -> (out: Step)
    requires
        placed(action@, result@),
    ensures
        out@ == answered(action@, result@),
        out.fits(),
{
    match action {
        Action::Navigate(_) | Action::Viewport(_, _) => Step::Said(done_message(action)),
        Action::Screenshot(_, _) => match Page::screenshot_data(&result) {
            Ok(bytes) => Step::Made(bytes),
            Err(error) => Step::Failed(error),
        },
        Action::Pdf(_) => match Page::pdf_data(&result) {
            Ok(bytes) => Step::Made(bytes),
            Err(error) => Step::Failed(error),
        },
        _ => match Page::evaluated(result) {
            Ok(value) => step_evaluated(action, value),
            Err(error) => Step::Failed(error),
        },
    }
}

fn begin(
    page: &Page,
    s: &mut Session,
    action: Action,
    timeout: u64,
    script: Option<Script>,
) -> (out: Next)
    ensures
        (out@, final(s)@) == talk(*page, old(s)@).begin(action@, timeout, opt_script(script)),
{
    let (stage, sent) = match &action {
        Action::Navigate(url) => {
            let (token, sent) = page.navigate(s, url.as_str());
            (Stage::Navigating(token), sent)
        },
        Action::Eval(expr) => (Stage::Answering, page.eval(s, expr.as_str())),
        Action::Click(selector) => (Stage::Answering, page.get_pos(s, selector.as_str())),
        Action::Type(selector, _) => (Stage::Answering, page.get_pos(s, selector.as_str())),
        Action::Screenshot(_, format) => (Stage::Answering, page.screenshot(s, format.as_str())),
        Action::Pdf(_) => (Stage::Answering, page.pdf(s)),
        Action::Wait(selector) => (
            Stage::Answering,
            page.wait_selector(s, selector.as_str(), timeout),
        ),
        Action::Title => (Stage::Answering, page.eval(s, "document.title")),
        Action::Content => (
            Stage::Answering,
            page.eval(s, "document.documentElement.outerHTML"),
        ),
        Action::Viewport(w, h) => (Stage::Answering, page.set_viewport(s, *w, *h)),
    };
    let seconds: u64 = first_seconds(&action, timeout);
    Next::Exchange(Job { action, stage, timeout, script }, sent, seconds)
}

fn resize(
    page: &Page,
    s: &mut Session,
    size: (u32, u32),
    action: Action,
    timeout: u64,
    script: Option<Script>,
) -> (out: Next)
    ensures
        (out@, final(s)@) == talk(*page, old(s)@).resize(
            size,
            action@,
            timeout,
            opt_script(script),
        ),
{
    let sent = page.set_viewport(s, size.0, size.1);
    Next::Exchange(Job { action, stage: Stage::Sizing, timeout, script }, sent, COMMAND_LIMIT)
}

fn go_on(page: &Page, s: &mut Session, script: Script, timeout: u64) -> (out: Next)
    ensures
        (out@, final(s)@) == talk(*page, old(s)@).go_on(script@, timeout),
{
    let Script { mut rest, outputs } = script;
    if rest.len() == 0 {
        return Next::Respond(outputs_response(&outputs));
    }
    let ghost all = texts(rest@);
    let line = rest.remove(0);
    assert(all[0] == line@);
    assert(texts(rest@) =~= all.skip(1));
    match parse_script_line(line.as_str()) {
        Ok(action) => begin(page, s, action, timeout, Some(Script { rest, outputs })),
        Err(error) => Next::Respond(error_response(&error)),
    }
}

impl Job {
    /// Begins what a request asks for.
    pub fn start(req: &Json, page: &Page, s: &mut Session) -> (out: Next)
        requires
            !short_viewport(req@),
        ensures
            (out@, final(s)@) == talk(*page, old(s)@).start(req@),
    {
        let timeout: u64 = timeout_of(req);
        match read_request(req) {
            Ok(Wanted::Stop) => Next::Stop(single("ok", Json::Bool(true))),
            Ok(Wanted::Script(lines)) => {
                let script = Script { rest: lines, outputs: Vec::new() };
                assert(script@.outputs =~= Seq::<Seq<char>>::empty());
                match size_asked(req) {
                    Some((w, h)) => {
                        let action = Action::Viewport(w, h);
                        resize(page, s, (w, h), action, timeout, Some(script))
                    },
                    None => go_on(page, s, script, timeout),
                }
            },
            Ok(Wanted::Page(action)) => match (size_asked(req), &action) {
                (_, Action::Viewport(_, _)) | (None, _) => begin(page, s, action, timeout, None),
                (Some(size), _) => resize(page, s, size, action, timeout, None),
            },
            Err(error) => Next::Respond(error_response(&error)),
        }
    }

    /// Begins what a request asks for, where the request can be read.
    pub fn try_start(req: &Json, page: &Page, s: &mut Session) -> (out: Option<Next>)
        ensures
            match out {
                Some(next) => !short_viewport(req@) && (next@, final(s)@) == talk(
                    *page,
                    old(s)@,
                ).start(req@),
                None => short_viewport(req@) && final(s)@ == old(s)@,
            },
    {
        if readable(req) {
            Some(Job::start(req, page, s))
        } else {
            None
        }
    }

    /// The subscription that the job is about to wait for. Whoever sends the
    /// command of the job has to listen to it before.
    pub fn subscription(&self) -> (token: Option<u64>)
        ensures
            token == match self@.stage {
                Stage::Navigating(token) => Some(token),
                _ => None,
            },
    {
        match self.stage {
            Stage::Navigating(token) => Some(token),
            _ => None,
        }
    }

    /// Tells whether this can happen while the job is waiting.
    pub fn accepts(&self, event: &Event) -> (out: bool)
        ensures
            out == self@.accepts(event@),
    {
        match self.stage {
            Stage::Sizing | Stage::Navigating(_) => match event {
                Event::Replies(replies) => replies.len() == 1,
                Event::TransportClosed => true,
                _ => false,
            },
            Stage::Answering => match event {
                Event::Replies(replies) => {
                    if replies.len() != 1 {
                        return false;
                    }
                    assert(replies_view(replies@)[0] == replies@[0]@);
                    match Session::send(first_method(&self.action), replies[0].clone()) {
                        Ok(result) => is_placed(&self.action, result),
                        Err(_) => true,
                    }
                },
                Event::TransportClosed => true,
                _ => false,
            },
            Stage::Loading => match event {
                Event::Loaded => true,
                _ => false,
            },
            Stage::Pressing => match event {
                Event::Replies(replies) => {
                    let count: usize = match &self.action {
                        Action::Type(_, _) => 4,
                        _ => 3,
                    };
                    Session::awaited(replies, count)
                },
                Event::TransportClosed => true,
                _ => false,
            },
            Stage::Saving => match event {
                Event::Saved(_) => self.script.is_some(),
                _ => false,
            },
        }
    }

    /// Goes on with the job once this happened, where it can happen.
    pub fn try_resume(self, event: Event, page: &Page, s: &mut Session) -> (out: Option<Next>)
        ensures
            match out {
                Some(next) => self@.accepts(event@) && (next@, final(s)@) == talk(
                    *page,
                    old(s)@,
                ).resume(self@, event@),
                None => !self@.accepts(event@) && final(s)@ == old(s)@,
            },
    {
        if self.accepts(&event) {
            Some(self.resume(event, page, s))
        } else {
            None
        }
    }

    fn step(&self, event: Event) -> (out: Step)
        requires
            self@.accepts(event@),
        ensures
            out@ == self@.progress(event@),
            out.fits(),
    {
        match event {
            Event::Replies(replies) => {
                let ghost view = replies_view(replies@);
                match self.stage {
                    Stage::Sizing => {
                        assert(view[0] == replies@[0]@);
                        let mut replies = replies;
                        match Session::send(
                            "Emulation.setDeviceMetricsOverride",
                            replies.remove(0),
                        ) {
                            Ok(_) => Step::Sized,
                            Err(error) => Step::Failed(error),
                        }
                    },
                    Stage::Navigating(token) => {
                        assert(view[0] == replies@[0]@);
                        let mut replies = replies;
                        match Session::send("Page.navigate", replies.remove(0)) {
                            Ok(_) => Step::Load(token),
                            Err(error) => Step::Failed(error),
                        }
                    },
                    Stage::Answering => {
                        assert(view[0] == replies@[0]@);
                        let mut replies = replies;
                        match Session::send(first_method(&self.action), replies.remove(0)) {
                            Ok(result) => step_answered(&self.action, result),
                            Err(error) => Step::Failed(error),
                        }
                    },
                    _ => match Session::await_all(replies) {
                        Ok(_) => Step::Said(done_message(&self.action)),
                        Err(error) => Step::Failed(error),
                    },
                }
            },
            Event::TransportClosed => Step::Failed(Error::TransportClosed),
            _ => Step::Said(done_message(&self.action)),
        }
    }

    /// Goes on with the job once this happened.
    pub fn resume(self, event: Event, page: &Page, s: &mut Session) -> (out: Next)
        requires
            self@.accepts(event@),
        ensures
            (out@, final(s)@) == talk(*page, old(s)@).resume(self@, event@),
            self@.script is None && !(event@ is Saved) ==> match self@.progress(event@) {
                Progress::Made(bytes) => match out@ {
                    NextView::Respond(answer) => shown(answer) == Ok::<OutputView, Seq<char>>(
                        OutputView::Bytes(
                            bytes,
                            non_empty(out_of(self@.action)),
                            kind_of(self@.action),
                        ),
                    ),
                    _ => false,
                },
                _ => true,
            },
    {
        let step = match event {
            Event::Saved(failure) => {
                return match failure {
                    Some(message) => Next::Respond(error_response(&Error::Other(message))),
                    None => match self.script {
                        Some(script) => go_on(page, s, script, self.timeout),
                        None => Next::Respond(error_response(&Error::ReplyLost)),
                    },
                };
            },
            _ => self.step(event),
        };
        match step {
            Step::Sized => match self.script {
                Some(script) => go_on(page, s, script, self.timeout),
                None => begin(page, s, self.action, self.timeout, None),
            },
            Step::Press(pos) => {
                let sent = match &self.action {
                    Action::Type(_, text) => page.type_text(s, &pos, text.as_str()),
                    _ => page.click(s, &pos),
                };
                Next::Exchange(Job { stage: Stage::Pressing, ..self }, sent, BATCH_LIMIT)
            },
            Step::Load(token) => Next::Await(
                Job { stage: Stage::Loading, ..self },
                token,
                BATCH_LIMIT,
            ),
            Step::Said(text) => match self.script {
                Some(script) => {
                    let Script { rest, mut outputs } = script;
                    assert(texts(outputs@.push(text)) =~= texts(outputs@).push(text@));
                    outputs.push(text);
                    go_on(page, s, Script { rest, outputs }, self.timeout)
                },
                None => Next::Respond(text_response(text)),
            },
            Step::Made(bytes) => {
                let out = match &self.action {
                    Action::Screenshot(out, _) => out.clone(),
                    Action::Pdf(out) => out.clone(),
                    _ => None,
                };
                let kind = match &self.action {
                    Action::Screenshot(_, _) => "screenshot",
                    _ => "page",
                };
                if self.script.is_some() {
                    let to = match &out {
                        Some(path) => write_bytes(Some(path.as_str()), kind),
                        None => write_bytes(None, kind),
                    };
                    Next::Save(Job { stage: Stage::Saving, ..self }, to, bytes)
                } else {
                    Next::Respond(bytes_response(&bytes, &out, kind))
                }
            },
            Step::Failed(error) => Next::Respond(error_response(&error)),
        }
    }
}

/// The client shows the text that the daemon answers with.
pub proof fn law_text_reaches_the_client(text: Seq<char>)
    ensures
        shown(text_answer(text)) == Ok::<OutputView, Seq<char>>(OutputView::Text(text)),
        plain(text_answer(text), 127),
{
    reveal_strlit("text");
    reveal_strlit("error");
    reveal_strlit("data_b64");
    assert("text"@.len() == 4 && "error"@.len() == 5 && "data_b64"@.len() == 8);
    lemma_single("text"@, JsonView::Text(text), 126);
}

/// The client fails with the failure that the daemon answers with, which it tells
/// as JSON.
pub proof fn law_failure_reaches_the_client(message: Seq<char>)
    ensures
        shown(error_answer(message)) == Err::<OutputView, Seq<char>>(
            json_text(JsonView::Text(message)),
        ),
        script_shown(error_answer(message)) == Err::<Seq<Seq<char>>, Seq<char>>(
            json_text(JsonView::Text(message)),
        ),
        plain(error_answer(message), 127),
{
    lemma_single("error"@, JsonView::Text(message), 126);
}

/// The client shows what a script said, all of it and in its order.
pub proof fn law_outputs_reach_the_client(outputs: Seq<Seq<char>>)
    ensures
        script_shown(outputs_answer(outputs)) == Ok::<Seq<Seq<char>>, Seq<char>>(outputs),
        plain(outputs_answer(outputs), 127),
{
    reveal_strlit("outputs");
    reveal_strlit("error");
    assert("outputs"@.len() == 7 && "error"@.len() == 5);
    lemma_plain_texts(outputs, 125);
    lemma_only_texts(outputs);
    lemma_single("outputs"@, text_list(outputs), 126);
}

/// The client gets the bytes that the daemon answers with, and the file that they
/// are for, where base64 gives them back.
pub proof fn law_bytes_reach_the_client(bytes: Seq<u8>, out: Option<Seq<char>>, kind: Seq<char>)
    ensures
        base64_bytes(base64_text(bytes)) == Ok::<Seq<u8>, Seq<char>>(bytes) ==> shown(
            bytes_answer(bytes, out, kind),
        ) == Ok::<OutputView, Seq<char>>(OutputView::Bytes(bytes, non_empty(out), kind)),
        plain(bytes_answer(bytes, out, kind), 127),
{
    reveal_strlit("data_b64");
    reveal_strlit("out");
    reveal_strlit("kind");
    reveal_strlit("error");
    assert("data_b64"@.len() == 8 && "out"@.len() == 3 && "kind"@.len() == 4 && "error"@.len()
        == 5);
    let e0 = Seq::<(Seq<char>, JsonView)>::empty();
    let e1 = e0.push(("data_b64"@, JsonView::Text(base64_text(bytes))));
    let e2 = e1.push(("out"@, JsonView::Text(text_or(out, Seq::empty()))));
    let e3 = e2.push(("kind"@, JsonView::Text(kind)));
    assert(e1.drop_last() =~= e0);
    assert(e2.drop_last() =~= e1);
    assert(e3.drop_last() =~= e2);
    assert(e3 =~= seq![
        ("data_b64"@, JsonView::Text(base64_text(bytes))),
        ("out"@, JsonView::Text(text_or(out, Seq::empty()))),
        ("kind"@, JsonView::Text(kind)),
    ]);
    assert(members(e3) == members(e2).insert("kind"@, JsonView::Text(kind)));
    assert(members(e2) == members(e1).insert(
        "out"@,
        JsonView::Text(text_or(out, Seq::empty())),
    ));
    assert(members(e1) == members(e0).insert(
        "data_b64"@,
        JsonView::Text(base64_text(bytes)),
    ));
    lemma_plain_object(e3, 126);
}

proof fn lemma_single(key: Seq<char>, value: JsonView, depth: nat)
    ensures
        object(seq![(key, value)]).get(key) == Some(value),
        forall|other: Seq<char>|
            other != key ==> #[trigger] object(seq![(key, value)]).get(other) is None,
        plain(value, depth) ==> plain(object(seq![(key, value)]), depth + 1),
{
    let all = seq![(key, value)];
    assert(all.drop_last() =~= Seq::<(Seq<char>, JsonView)>::empty());
    reveal_with_fuel(members, 2);
    if plain(value, depth) {
        lemma_plain_object(all, depth);
    }
}

/// A failure ends a job: the client is told, and nothing more is sent, whatever is
/// left of the script.
pub proof fn law_failure_ends_the_job(talk: Talk, job: JobView, event: EventView)
    requires
        job.accepts(event),
        job.progress(event) is Failed || (event matches EventView::Saved(failure) && failure is Some),
    ensures
        talk.resume(job, event).0 is Respond,
        talk.resume(job, event).0->Respond_0.get("error"@) is Some,
        talk.resume(job, event).1 == talk.session,
{
    let answer = talk.resume(job, event).0->Respond_0;
    let message = match event {
        EventView::Saved(failure) => failure->Some_0,
        _ => job.progress(event)->Failed_0,
    };
    assert(answer == error_answer(message));
    lemma_single("error"@, JsonView::Text(message), 126);
}

impl JobView {
    /// How far a job is from its end.
    pub open spec fn distance(self) -> nat {
        let lines = match self.script {
            Some(script) => script.rest.len(),
            None => 0,
        };
        3 * lines + match self.stage {
            Stage::Sizing => 3nat,
            Stage::Navigating(_) | Stage::Answering => 2nat,
            _ => 1nat,
        }
    }
}

impl NextView {
    /// The job that goes on.
    pub open spec fn job(self) -> Option<JobView> {
        match self {
            NextView::Respond(_) | NextView::Stop(_) => None,
            NextView::Exchange(job, _, _, _) => Some(job),
            NextView::Await(job, _, _) => Some(job),
            NextView::Save(job, _, _) => Some(job),
        }
    }
}

/// Every job comes to an end: whatever happens, it is answered, or it is closer to
/// its end than before.
pub proof fn law_job_comes_to_an_end(talk: Talk, job: JobView, event: EventView)
    requires
        job.accepts(event),
    ensures
        talk.resume(job, event).0.job() matches Some(next) ==> next.distance() < job.distance(),
{
}

impl NextView {
    /// Tells whether what is done next can be followed by what comes of it: as many
    /// answers as there are commands are fit to go on with, and so is every way in
    /// which commands are not sent, a wait ends or bytes are saved. The one
    /// exception is an answer that gives half of the place of an element.
    pub open spec fn can_go_on(self) -> bool {
        match self {
            NextView::Exchange(job, ids, _, _) => {
                &&& ids.len() > 0
                &&& job.accepts(EventView::TransportClosed)
                &&& forall|replies: Seq<ReplyView>|
                    replies.len() == ids.len() && !job.misplaced(replies)
                        ==> #[trigger] job.accepts(EventView::Replies(replies))
            },
            NextView::Await(job, _, _) => job.accepts(EventView::Loaded),
            NextView::Save(job, _, _) => forall|failure: Option<Seq<char>>| #[trigger]
                job.accepts(EventView::Saved(failure)),
            _ => true,
        }
    }
}

impl JobView {
    /// Tells whether these answers give a list that is too short to be the place of
    /// an element.
    pub open spec fn misplaced(self, replies: Seq<ReplyView>) -> bool {
        self.stage is Answering && match command_result(
            first_command(self.action, self.timeout).0,
            replies[0],
        ) {
            Ok(result) => !placed(self.action, result),
            Err(_) => false,
        }
    }
}

/// Whatever a job does next, it can go on with what comes of it.
pub proof fn law_job_can_go_on(talk: Talk, req: JsonView, job: JobView, event: EventView)
    requires
        job.accepts(event),
    ensures
        talk.start(req).0.can_go_on(),
        talk.resume(job, event).0.can_go_on(),
{
}

/// A wait is given the time that was asked for: its answer is awaited for longer
/// than the timeout, however long that is.
pub proof fn law_wait_gets_its_time(
    talk: Talk,
    selector: Seq<char>,
    timeout: u64,
    script: Option<ScriptView>,
)
    ensures
        match talk.begin(ActionView::Wait(selector), timeout, script).0 {
            NextView::Exchange(_, _, _, seconds) => seconds * 1000 > timeout && seconds
                >= COMMAND_LIMIT,
            _ => false,
        },
{
}

/// An action that clicks or types is done only where each of its commands was
/// answered without a failure.
pub proof fn law_done_means_answered(job: JobView, replies: Seq<ReplyView>)
    requires
        job.stage is Pressing,
        job.accepts(EventView::Replies(replies)),
        !(job.progress(EventView::Replies(replies)) is Failed),
    ensures
        replies.len() == press_count(job.action),
        forall|i: int| 0 <= i < replies.len() ==> batch_result(#[trigger] replies[i]) is Ok,
{
    law_batch_needs_every_answer(replies);
    if replies.len() > 0 {
        assert(replies.last() == replies[replies.len() - 1]);
    }
}

/// The viewport that a client asks for is set before what it asks for is begun, by
/// a command of its own that has to succeed.
pub proof fn law_asked_size_is_set_first(
    talk: Talk,
    args: ArgsView,
    size: (u32, u32),
    action: ActionView,
    later: Talk,
    event: EventView,
)
    requires
        args.viewport == Some(size),
        wanted(command_request(args)) == Ok::<WantedView, Seq<char>>(WantedView::Page(action)),
        !(action is Viewport),
    ensures
        ({
            let job = JobView {
                action,
                stage: Stage::Sizing,
                timeout: args.timeout,
                script: None,
            };
            &&& talk.start(command_request(args)) == talk.exchange(
                job,
                seq![viewport_command(size.0, size.1)],
                COMMAND_LIMIT,
            )
            &&& job.accepts(event) ==> later.resume(job, event) == match job.progress(event) {
                Progress::Failed(message) => (
                    NextView::Respond(error_answer(message)),
                    later.session,
                ),
                _ => later.begin(action, args.timeout, None),
            }
        }),
{
    law_request_reads_back(args);
}

/// The viewport that a client asks for is set before the first line of its script
/// is begun.
pub proof fn law_asked_size_is_set_before_a_script(
    talk: Talk,
    lines: Seq<Seq<char>>,
    timeout: u64,
    size: (u32, u32),
    later: Talk,
    event: EventView,
)
    ensures
        ({
            let script = ScriptView { rest: lines, outputs: Seq::empty() };
            let job = JobView {
                action: ActionView::Viewport(size.0, size.1),
                stage: Stage::Sizing,
                timeout,
                script: Some(script),
            };
            &&& talk.start(script_request_of(lines, timeout, Some(size))) == talk.exchange(
                job,
                seq![viewport_command(size.0, size.1)],
                COMMAND_LIMIT,
            )
            &&& job.accepts(event) ==> later.resume(job, event) == match job.progress(event) {
                Progress::Failed(message) => (
                    NextView::Respond(error_answer(message)),
                    later.session,
                ),
                _ => later.go_on(script, timeout),
            }
        }),
{
    law_script_reads_back(lines, timeout, Some(size));
}

/// Where a client asks for no viewport, what it asks for is begun at once.
pub proof fn law_nothing_is_set_unasked(
    talk: Talk,
    args: ArgsView,
    action: ActionView,
    lines: Seq<Seq<char>>,
)
    requires
        args.viewport is None,
        wanted(command_request(args)) == Ok::<WantedView, Seq<char>>(WantedView::Page(action)),
    ensures
        talk.start(command_request(args)) == talk.begin(action, args.timeout, None),
        talk.start(script_request_of(lines, args.timeout, None)) == talk.go_on(
            ScriptView { rest: lines, outputs: Seq::empty() },
            args.timeout,
        ),
{
    law_request_reads_back(args);
    law_script_reads_back(lines, args.timeout, None);
}

/// What a script said stays said, and its lines are taken from the front: after
/// each step there is at most one more output, and at most one line less.
pub proof fn law_script_moves_forward(talk: Talk, job: JobView, event: EventView)
    requires
        job.accepts(event),
        job.script is Some,
    ensures
        match talk.resume(job, event).0.job() {
            Some(next) => {
                let before = job.script->Some_0;
                let after = next.script->Some_0;
                &&& next.script is Some
                &&& next.timeout == job.timeout
                &&& after.rest == before.rest || after.rest == before.rest.skip(1)
                &&& after.outputs == before.outputs || after.outputs == before.outputs.push(
                    after.outputs.last(),
                )
            },
            None => true,
        },
{
}

/// What is done for a client after these events, each of them in the state that the
/// conversation then has.
pub open spec fn run(next: NextView, steps: Seq<(Talk, EventView)>) -> NextView
    decreases steps.len(),
{
    match next.job() {
        Some(job) => if steps.len() == 0 {
            next
        } else {
            run(steps[0].0.resume(job, steps[0].1).0, steps.skip(1))
        },
        None => next,
    }
}

/// Tells whether these events can happen, one after the other.
pub open spec fn can_happen(next: NextView, steps: Seq<(Talk, EventView)>) -> bool
    decreases steps.len(),
{
    match next.job() {
        Some(job) => steps.len() > 0 ==> {
            &&& job.accepts(steps[0].1)
            &&& can_happen(steps[0].0.resume(job, steps[0].1).0, steps.skip(1))
        },
        None => true,
    }
}

/// Every request is answered: a job is done after at most as many events as it is
/// far from its end, whatever they are and whatever else happens in the
/// conversation.
pub proof fn law_every_job_is_answered(next: NextView, steps: Seq<(Talk, EventView)>)
    requires
        can_happen(next, steps),
        next.job() matches Some(job) ==> job.distance() <= steps.len(),
    ensures
        run(next, steps).job() is None,
    decreases steps.len(),
{
    match next.job() {
        Some(job) => {
            law_job_comes_to_an_end(steps[0].0, job, steps[0].1);
            law_every_job_is_answered(steps[0].0.resume(job, steps[0].1).0, steps.skip(1));
        },
        None => {},
    }
}

/// What a script has said at some time is shown to the client in the end, before
/// what it says later, unless the script fails.
pub proof fn law_said_is_shown(next: NextView, steps: Seq<(Talk, EventView)>)
    requires
        can_happen(next, steps),
        next.job() is Some,
        next.job()->Some_0.script is Some,
    ensures
        match run(next, steps) {
            NextView::Respond(answer) => match script_shown(answer) {
                Ok(shown) => next.job()->Some_0.script->Some_0.outputs.is_prefix_of(shown),
                Err(_) => true,
            },
            _ => true,
        },
    decreases steps.len(),
{
    if steps.len() > 0 {
        let job = next.job()->Some_0;
        let (talk, event) = steps[0];
        let after = talk.resume(job, event).0;
        let before = job.script->Some_0.outputs;
        law_script_moves_forward(talk, job, event);
        match after.job() {
            Some(later) => {
                law_said_is_shown(after, steps.skip(1));
                let outputs = later.script->Some_0.outputs;
                assert(before.is_prefix_of(outputs));
                match run(next, steps) {
                    NextView::Respond(answer) => match script_shown(answer) {
                        Ok(shown) => {
                            assert(outputs.is_prefix_of(shown));
                            assert(before.is_prefix_of(shown));
                        },
                        Err(_) => {},
                    },
                    _ => {},
                }
            },
            None => {
                assert(run(next, steps) == after);
                lemma_script_answer(talk, job, event);
            },
        }
    }
}

proof fn lemma_script_answer(talk: Talk, job: JobView, event: EventView)
    requires
        job.accepts(event),
        job.script is Some,
    ensures
        match talk.resume(job, event).0 {
            NextView::Respond(answer) => match script_shown(answer) {
                Ok(shown) => job.script->Some_0.outputs.is_prefix_of(shown),
                Err(_) => true,
            },
            _ => true,
        },
{
    let before = job.script->Some_0;
    let text = match event {
        EventView::Saved(_) => Seq::empty(),
        _ => job.progress(event)->Said_0,
    };
    law_outputs_reach_the_client(before.outputs);
    law_outputs_reach_the_client(before.outputs.push(text));
    assert(before.outputs.is_prefix_of(before.outputs.push(text)));
    match talk.resume(job, event).0 {
        NextView::Respond(answer) => {
            if answer == outputs_answer(before.outputs) {
            } else if answer == outputs_answer(before.outputs.push(text)) {
            } else {
                let failed = match event {
                    EventView::Saved(failure) => failure->Some_0,
                    _ => job.progress(event)->Failed_0,
                };
                law_failure_reaches_the_client(failed);
                if before.rest.len() > 0 {
                    law_failure_reaches_the_client(
                        script_action(words(before.rest[0]))->Err_0,
                    );
                }
            }
        },
        _ => {},
    }
}

/// A script that has nothing left is answered with what it said.
pub proof fn law_script_says_everything(talk: Talk, script: ScriptView, timeout: u64)
    requires
        script.rest.len() == 0,
    ensures
        talk.go_on(script, timeout) == (
            NextView::Respond(outputs_answer(script.outputs)),
            talk.session,
        ),
        script_shown(outputs_answer(script.outputs)) == Ok::<Seq<Seq<char>>, Seq<char>>(
            script.outputs,
        ),
{
    law_outputs_reach_the_client(script.outputs);
}

fn is_placed(action: &Action, result: Json) -> (out: bool)
    ensures
        out == placed(action@, result@),
{
    match action {
        Action::Click(_) | Action::Type(_, _) => match Page::evaluated(result) {
            Ok(value) => match value.as_array() {
                Some(items) => items.len() >= 2,
                None => true,
            },
            Err(_) => true,
        },
        _ => true,
    }
}

} // verus!
