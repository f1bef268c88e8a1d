//! How the daemon gets its page, step by step.
use vstd::prelude::*;

use crate::client::text_or;
use crate::daemon::Event;
use crate::daemon::EventView;
use crate::daemon::BATCH_LIMIT;
use crate::daemon::COMMAND_LIMIT;
use crate::error::Error;
use crate::json::object;
use crate::json::Json;
use crate::json::JsonView;
use crate::json::Members;
use crate::page::bare;
use crate::page::viewport_command;
use crate::page::Page;
use crate::session::batch_bytes;
use crate::session::batch_results;
use crate::session::command_result;
use crate::session::replies_view;
use crate::session::waited_for;
use crate::session::ReplyView;
use crate::session::Sent;
use crate::session::Session;
use crate::session::SessionView;

verus! {

/// What the start is waiting for.
#[derive(Debug, PartialEq, Eq)]
enum Stage {
    /// A new target.
    Creating,
    /// The session that attaches to the target.
    Attaching,
    /// The messages about the page.
    Enabling(Page),
    /// The size of the viewport.
    Sizing(Page),
}

/// What the start is waiting for, a page by the name of its session.
pub enum StageView {
    Creating,
    Attaching,
    Enabling(Seq<char>),
    Sizing(Seq<char>),
}

/// The start of a daemon.
#[derive(Debug, PartialEq, Eq)]
pub struct Startup {
    viewport: Option<(u32, u32)>,
    stage: Stage,
}

/// The start of a daemon.
pub ghost struct StartupView {
    pub viewport: Option<(u32, u32)>,
    pub stage: StageView,
}

impl View for Startup {
    type V = StartupView;

    closed spec fn view(&self) -> StartupView {
        StartupView {
            viewport: self.viewport,
            stage: match self.stage {
                Stage::Creating => StageView::Creating,
                Stage::Attaching => StageView::Attaching,
                Stage::Enabling(page) => StageView::Enabling(page.session_id@),
                Stage::Sizing(page) => StageView::Sizing(page.session_id@),
            },
        }
    }
}

/// What the daemon is to do next to get its page.
#[derive(Debug, PartialEq, Eq)]
pub enum Opening {
    /// Send commands, and wait so many seconds for the answer to each.
    Exchange(Startup, Sent, u64),
    /// Nothing more: this is the page.
    Ready(Page),
}

/// What the daemon is to do next to get its page.
pub enum OpeningView {
    Exchange(StartupView, Seq<u64>, Seq<u8>, u64),
    Ready(Seq<char>),
}

impl View for Opening {
    type V = OpeningView;

    open spec fn view(&self) -> OpeningView {
        match self {
            Opening::Exchange(startup, sent, seconds) => OpeningView::Exchange(
                startup@,
                sent.ids@,
                sent.bytes@,
                *seconds,
            ),
            Opening::Ready(page) => OpeningView::Ready(page.session_id@),
        }
    }
}

/// The command that makes a new target.
pub open spec fn create_command() -> (Seq<char>, JsonView) {
    ("Target.createTarget"@, object(seq![("url"@, JsonView::Text("about:blank"@))]))
}

/// The command that attaches a session to a target.
pub open spec fn attach_command(target: Seq<char>) -> (Seq<char>, JsonView) {
    (
        "Target.attachToTarget"@,
        object(seq![("targetId"@, JsonView::Text(target)), ("flatten"@, JsonView::Bool(true))]),
    )
}

/// Sends commands for the start, which then waits for the answers.
pub open spec fn ask(
    s: SessionView,
    startup: StartupView,
    messages: Seq<(Seq<char>, JsonView)>,
    session_id: Option<Seq<char>>,
    seconds: u64,
) -> (Result<OpeningView, Seq<char>>, SessionView) {
    (
        Ok(
            OpeningView::Exchange(
                startup,
                s.ids(messages.len()),
                batch_bytes(s, messages, session_id),
                seconds,
            ),
        ),
        s.after(messages.len()),
    )
}

impl StartupView {
    /// Begins the start: asks for a new target.
    pub open spec fn begin(s: SessionView, viewport: Option<(u32, u32)>) -> (
        Result<OpeningView, Seq<char>>,
        SessionView,
    ) {
        ask(
            s,
            StartupView { viewport, stage: StageView::Creating },
            seq![create_command()],
            None,
            COMMAND_LIMIT,
        )
    }

    /// Tells whether this can happen during the start.
    pub open spec fn accepts(self, event: EventView) -> bool {
        match event {
            EventView::Replies(replies) => if self.stage is Enabling {
                waited_for(replies, 2)
            } else {
                replies.len() == 1
            },
            EventView::TransportClosed => true,
            _ => false,
        }
    }

    /// Goes on with the start once this happened: from the target to its session,
    /// to the messages about the page and, where one was asked for, to the size of
    /// the viewport.
    pub open spec fn resume(self, s: SessionView, event: EventView) -> (
        Result<OpeningView, Seq<char>>,
        SessionView,
    ) {
        match event {
            EventView::Replies(replies) => match self.stage {
                StageView::Creating => match command_result("Target.createTarget"@, replies[0]) {
                    Ok(result) => ask(
                        s,
                        StartupView { stage: StageView::Attaching, ..self },
                        seq![
                            attach_command(text_or(result.get_str("targetId"@), Seq::empty())),
                        ],
                        None,
                        COMMAND_LIMIT,
                    ),
                    Err(message) => (Err(message), s),
                },
                StageView::Attaching => match command_result("Target.attachToTarget"@, replies[0]) {
                    Ok(result) => {
                        let session_id = text_or(result.get_str("sessionId"@), Seq::empty());
                        ask(
                            s,
                            StartupView { stage: StageView::Enabling(session_id), ..self },
                            seq![bare("Page.enable"@), bare("Runtime.enable"@)],
                            Some(session_id),
                            BATCH_LIMIT,
                        )
                    },
                    Err(message) => (Err(message), s),
                },
                StageView::Enabling(session_id) => match batch_results(replies) {
                    Ok(_) => match self.viewport {
                        Some((w, h)) => ask(
                            s,
                            StartupView { stage: StageView::Sizing(session_id), ..self },
                            seq![viewport_command(w, h)],
                            Some(session_id),
                            COMMAND_LIMIT,
                        ),
                        None => (Ok(OpeningView::Ready(session_id)), s),
                    },
                    Err(message) => (Err(message), s),
                },
                StageView::Sizing(session_id) => match command_result(
                    "Emulation.setDeviceMetricsOverride"@,
                    replies[0],
                ) {
                    Ok(_) => (Ok(OpeningView::Ready(session_id)), s),
                    Err(message) => (Err(message), s),
                },
            },
            _ => (Err("transport closed"@), s),
        }
    }
}

/// What is to be done next, a failure by how it is told.
pub open spec fn opening_told(out: Result<Opening, Error>) -> Result<OpeningView, Seq<char>> {
    match out {
        Ok(next) => Ok(next@),
        Err(error) => Err(error.text()),
    }
}

impl Startup {
    /// Begins the start: asks for a new target.
    pub fn begin(s: &mut Session, viewport: Option<(u32, u32)>) -> (out: Opening)
        ensures
            (Ok::<OpeningView, Seq<char>>(out@), final(s)@) == StartupView::begin(
                old(s)@,
                viewport,
            ),
    {
        let entries = Members::new().with("url", Json::from_text("about:blank"));
        assert(entries@ =~= seq![("url"@, JsonView::Text("about:blank"@))]);
        let sent = s.send_nowait("Target.createTarget", entries.object(), None);
        Opening::Exchange(Startup { viewport, stage: Stage::Creating }, sent, COMMAND_LIMIT)
    }

    /// Tells whether this can happen during the start.
    pub fn accepts(&self, event: &Event) -> (out: bool)
        ensures
            out == self@.accepts(event@),
    {
        match event {
            Event::Replies(replies) => match self.stage {
                Stage::Enabling(_) => Session::awaited(replies, 2),
                _ => replies.len() == 1,
            },
            Event::TransportClosed => true,
            _ => false,
        }
    }

    /// Goes on with the start once this happened, where it can happen.
    pub fn try_resume(self, event: Event, s: &mut Session) -> (out: Option<Result<Opening, Error>>)
        ensures
            match out {
                Some(out) => self@.accepts(event@) && (opening_told(out), final(s)@)
                    == self@.resume(old(s)@, event@),
                None => !self@.accepts(event@) && final(s)@ == old(s)@,
            },
    {
        if self.accepts(&event) {
            Some(self.resume(event, s))
        } else {
            None
        }
    }

    /// Goes on with the start once this happened.
    pub fn resume(self, event: Event, s: &mut Session) -> (out: Result<Opening, Error>)
        requires
            self@.accepts(event@),
        ensures
            (opening_told(out), final(s)@) == self@.resume(old(s)@, event@),
    {
        let mut replies = match event {
            Event::Replies(replies) => replies,
            _ => return Err(Error::TransportClosed),
        };
        let ghost view = replies_view(replies@);
        let viewport = self.viewport;
        match self.stage {
            Stage::Creating => {
                assert(view[0] == replies@[0]@);
                let result = Session::send("Target.createTarget", replies.remove(0))?;
                let target = match result.get_str("targetId") {
                    Some(target) => target.to_owned(),
                    None => String::new(),
                };
                let entries = Members::new().with("targetId", Json::Text(target)).with(
                    "flatten",
                    Json::Bool(true),
                );
                assert(entries@ =~= seq![
                    ("targetId"@, JsonView::Text(target@)),
                    ("flatten"@, JsonView::Bool(true)),
                ]);
                let sent = s.send_nowait("Target.attachToTarget", entries.object(), None);
                let next = Startup { viewport, stage: Stage::Attaching };
                Ok(Opening::Exchange(next, sent, COMMAND_LIMIT))
            },
            Stage::Attaching => {
                assert(view[0] == replies@[0]@);
                let result = Session::send("Target.attachToTarget", replies.remove(0))?;
                let session_id = match result.get_str("sessionId") {
                    Some(session_id) => session_id.to_owned(),
                    None => String::new(),
                };
                let page = Page { session_id };
                let sent = page.enable(s);
                let next = Startup { viewport, stage: Stage::Enabling(page) };
                Ok(Opening::Exchange(next, sent, BATCH_LIMIT))
            },
            Stage::Enabling(page) => {
                match Session::await_all(replies) {
                    Ok(_) => {},
                    Err(error) => return Err(error),
                }
                match viewport {
                    Some((w, h)) => {
                        let sent = page.set_viewport(s, w, h);
                        let next = Startup { viewport, stage: Stage::Sizing(page) };
                        Ok(Opening::Exchange(next, sent, COMMAND_LIMIT))
                    },
                    None => Ok(Opening::Ready(page)),
                }
            },
            Stage::Sizing(page) => {
                assert(view[0] == replies@[0]@);
                Session::send("Emulation.setDeviceMetricsOverride", replies.remove(0))?;
                Ok(Opening::Ready(page))
            },
        }
    }
}

impl StartupView {
    /// How far a start is from its end.
    pub open spec fn distance(self) -> nat {
        match self.stage {
            StageView::Creating => 3,
            StageView::Attaching => 2,
            StageView::Enabling(_) => 1,
            StageView::Sizing(_) => 0,
        }
    }
}

/// Every start comes to an end: whatever happens, it fails, the page is ready, or
/// it is closer to its end than before.
pub proof fn law_start_comes_to_an_end(startup: StartupView, s: SessionView, event: EventView)
    requires
        startup.accepts(event),
    ensures
        match startup.resume(s, event).0 {
            Ok(OpeningView::Exchange(next, _, _, _)) => next.distance() < startup.distance(),
            _ => true,
        },
{
}

/// Whatever a start does next, it can go on with what comes of it.
pub proof fn law_start_can_go_on(startup: StartupView, s: SessionView, event: EventView)
    requires
        startup.accepts(event),
    ensures
        match startup.resume(s, event).0 {
            Ok(OpeningView::Exchange(next, ids, _, _)) => {
                &&& ids.len() > 0
                &&& next.accepts(EventView::TransportClosed)
                &&& forall|replies: Seq<ReplyView>|
                    replies.len() == ids.len() ==> #[trigger] next.accepts(
                        EventView::Replies(replies),
                    )
            },
            _ => true,
        },
{
}

/// The page is ready under the session that the browser named, once the messages
/// about it are on and the viewport that was asked for is set.
pub proof fn law_page_is_ready_at_the_end(startup: StartupView, s: SessionView, event: EventView)
    requires
        startup.accepts(event),
        startup.resume(s, event).0 matches Ok(OpeningView::Ready(_)),
    ensures
        match startup.stage {
            StageView::Enabling(session_id) => startup.viewport is None && startup.resume(
                s,
                event,
            ).0 == Ok::<OpeningView, Seq<char>>(OpeningView::Ready(session_id)),
            StageView::Sizing(session_id) => startup.resume(s, event).0 == Ok::<
                OpeningView,
                Seq<char>,
            >(OpeningView::Ready(session_id)),
            _ => false,
        },
{
}

} // verus!
