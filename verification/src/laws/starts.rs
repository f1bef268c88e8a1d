//! Promises on how the daemon gets its page.
use vstd::prelude::*;

use crate::daemon::talk;
use crate::daemon::EventView;
use crate::error::Error;
use crate::json::json_text;
use crate::json::JsonView;
use crate::laws::documents::lemma_object_1;
use crate::laws::documents::lemma_object_2;
use crate::laws::jobs::all_well;
use crate::laws::jobs::answers;
use crate::laws::jobs::one_reply;
use crate::laws::messages::documents;
use crate::laws::messages::law_batch_is_read_in_order;
use crate::laws::messages::law_commands_are_counted;
use crate::laws::messages::number_ahead;
use crate::laws::messages::reads_as;
use crate::laws::pages::law_page_commands;
use crate::laws::pages::size_params;
use crate::page::Page;
use crate::session::batch_bytes;
use crate::session::batch_results;
use crate::session::law_batch_needs_every_answer;
use crate::session::ReplyView;
use crate::session::Sent;
use crate::session::SessionView;
use crate::startup::opening_told;
use crate::startup::Opening;
use crate::startup::OpeningView;
use crate::startup::Startup;
use crate::startup::StartupView;

verus! {

/// Tells whether these commands, methods with parameters, are sent next for the
/// start, and that the answer to each is awaited for so many seconds.
pub open spec fn asks(
    out: Result<OpeningView, Seq<char>>,
    s: SessionView,
    session_id: Option<Seq<char>>,
    commands: Seq<(Seq<char>, JsonView)>,
    limit: int,
) -> bool {
    match out {
        Ok(OpeningView::Exchange(_, ids, bytes, seconds)) => {
            &&& seconds == limit
            &&& ids.len() == commands.len()
            &&& forall|i: int| 0 <= i < ids.len() ==> #[trigger] ids[i] == number_ahead(s, i)
            &&& bytes.len() <= u64::MAX ==> reads_as(bytes, documents(s, commands, session_id))
        },
        _ => false,
    }
}

/// The start that goes on.
pub open spec fn start_of(out: Result<OpeningView, Seq<char>>) -> StartupView {
    out->Ok_0->Exchange_0
}

proof fn lemma_asked(
    s: SessionView,
    startup: StartupView,
    messages: Seq<(Seq<char>, JsonView)>,
    session_id: Option<Seq<char>>,
    seconds: u64,
)
    ensures
        asks(
            crate::startup::ask(s, startup, messages, session_id, seconds).0,
            s,
            session_id,
            messages,
            seconds as int,
        ),
{
    let n = messages.len();
    assert forall|i: int| 0 <= i < n implies #[trigger] s.ids(n)[i] == number_ahead(s, i) by {
        law_commands_are_counted(s, n, i);
    }
    if batch_bytes(s, messages, session_id).len() <= u64::MAX {
        law_batch_is_read_in_order(s, messages, session_id);
    }
}

/// The text of a member, or an empty one.
pub open spec fn text_member(json: JsonView, key: Seq<char>) -> Seq<char> {
    if json.get(key) is Some && json.get(key)->Some_0 is Text {
        json.get(key)->Some_0->Text_0
    } else {
        Seq::empty()
    }
}

/// A start asks for an empty target, attaches to the target that the browser names,
/// turns on the messages in the session that the browser names, and, where a size
/// was asked for, sets it there; then the page is the one of that session.
pub proof fn law_start_gets_its_page(
    viewport: Option<(u32, u32)>,
    s0: SessionView,
    s1: SessionView,
    target: JsonView,
    created: JsonView,
    s2: SessionView,
    session: JsonView,
    attached: JsonView,
    s3: SessionView,
    enabled: Seq<ReplyView>,
    s4: SessionView,
    sized: JsonView,
    answer: JsonView,
)
    requires
        answers(target, created),
        answers(session, attached),
        enabled.len() == 2,
        all_well(enabled),
        answers(answer, sized),
    ensures
        ({
            let sid = text_member(attached, "sessionId"@);
            let first = StartupView::begin(s0, viewport).0;
            let second = start_of(first).resume(s1, one_reply(target)).0;
            let third = start_of(second).resume(s2, one_reply(session)).0;
            let fourth = start_of(third).resume(s3, EventView::Replies(enabled)).0;
            &&& asks(
                first,
                s0,
                None,
                seq![
                    (
                        "Target.createTarget"@,
                        JsonView::Object(map!["url"@ => JsonView::Text("about:blank"@)]),
                    ),
                ],
                60,
            )
            &&& start_of(first).accepts(one_reply(target))
            &&& asks(
                second,
                s1,
                None,
                seq![
                    (
                        "Target.attachToTarget"@,
                        JsonView::Object(
                            map![
                                "targetId"@ => JsonView::Text(text_member(created, "targetId"@)),
                                "flatten"@ => JsonView::Bool(true),
                            ],
                        ),
                    ),
                ],
                60,
            )
            &&& start_of(second).accepts(one_reply(session))
            &&& asks(
                third,
                s2,
                Some(sid),
                seq![
                    ("Page.enable"@, JsonView::Object(Map::empty())),
                    ("Runtime.enable"@, JsonView::Object(Map::empty())),
                ],
                10,
            )
            &&& start_of(third).accepts(EventView::Replies(enabled))
            &&& match viewport {
                Some((w, h)) => {
                    &&& asks(
                        fourth,
                        s3,
                        Some(sid),
                        seq![("Emulation.setDeviceMetricsOverride"@, size_params(w, h))],
                        60,
                    )
                    &&& start_of(fourth).accepts(one_reply(answer))
                    &&& start_of(fourth).resume(s4, one_reply(answer)).0 == Ok::<
                        OpeningView,
                        Seq<char>,
                    >(OpeningView::Ready(sid))
                },
                None => fourth == Ok::<OpeningView, Seq<char>>(OpeningView::Ready(sid)),
            }
        }),
{
    let none = Seq::<char>::empty();
    let sid = text_member(attached, "sessionId"@);
    let first = StartupView::begin(s0, viewport).0;
    lemma_object_1("url"@, JsonView::Text("about:blank"@));
    lemma_asked(
        s0,
        start_of(first),
        seq![
            (
                "Target.createTarget"@,
                JsonView::Object(map!["url"@ => JsonView::Text("about:blank"@)]),
            ),
        ],
        None,
        60,
    );
    let second = start_of(first).resume(s1, one_reply(target)).0;
    let attach = JsonView::Object(
        map![
            "targetId"@ => JsonView::Text(text_member(created, "targetId"@)),
            "flatten"@ => JsonView::Bool(true),
        ],
    );
    lemma_object_2(
        "targetId"@,
        JsonView::Text(text_member(created, "targetId"@)),
        "flatten"@,
        JsonView::Bool(true),
    );
    lemma_asked(s1, start_of(second), seq![("Target.attachToTarget"@, attach)], None, 60);
    let third = start_of(second).resume(s2, one_reply(session)).0;
    law_page_commands(0, 0, none, none, none, "Page.enable"@);
    law_page_commands(0, 0, none, none, none, "Runtime.enable"@);
    lemma_asked(
        s2,
        start_of(third),
        seq![
            ("Page.enable"@, JsonView::Object(Map::empty())),
            ("Runtime.enable"@, JsonView::Object(Map::empty())),
        ],
        Some(sid),
        10,
    );
    let fourth = start_of(third).resume(s3, EventView::Replies(enabled)).0;
    law_batch_needs_every_answer(enabled);
    match viewport {
        Some((w, h)) => {
            law_page_commands(w, h, none, none, none, none);
            lemma_asked(
                s3,
                start_of(fourth),
                seq![("Emulation.setDeviceMetricsOverride"@, size_params(w, h))],
                Some(sid),
                60,
            );
        },
        None => {},
    }
}

/// A start that is refused or not answered fails with what went wrong, at whichever
/// step that is, and sends nothing more.
pub proof fn law_start_fails_with_its_reason(
    startup: StartupView,
    s: SessionView,
    error: JsonView,
    answer: JsonView,
    replies: Seq<ReplyView>,
)
    requires
        answer.get("error"@) == Some(error),
    ensures
        startup.resume(s, EventView::TransportClosed) == (
            Err::<OpeningView, Seq<char>>("transport closed"@),
            s,
        ),
        !(startup.stage is Enabling) ==> startup.resume(
            s,
            EventView::Replies(seq![ReplyView::TimedOut]),
        ) == (Err::<OpeningView, Seq<char>>("command timed out"@), s),
        !(startup.stage is Enabling) ==> startup.resume(
            s,
            EventView::Replies(seq![ReplyView::Lost]),
        ) == (Err::<OpeningView, Seq<char>>("channel closed"@), s),
        startup.stage is Creating ==> startup.resume(s, one_reply(answer)) == (
            Err::<OpeningView, Seq<char>>(
                "CDP error on Target.createTarget: "@ + json_text(error),
            ),
            s,
        ),
        startup.stage is Attaching ==> startup.resume(s, one_reply(answer)) == (
            Err::<OpeningView, Seq<char>>(
                "CDP error on Target.attachToTarget: "@ + json_text(error),
            ),
            s,
        ),
        startup.stage is Sizing ==> startup.resume(s, one_reply(answer)) == (
            Err::<OpeningView, Seq<char>>(
                "CDP error on Emulation.setDeviceMetricsOverride: "@ + json_text(error),
            ),
            s,
        ),
        startup.stage is Enabling && !all_well(replies) ==> batch_results(replies) is Err
            && startup.resume(s, EventView::Replies(replies)) == (
            Err::<OpeningView, Seq<char>>(batch_results(replies)->Err_0),
            s,
        ),
        startup.stage is Enabling && startup.accepts(EventView::Replies(replies)) && all_well(
            replies,
        ) ==> replies.len() == 2,
{
    law_batch_needs_every_answer(replies);
    if replies.len() > 0 {
        assert(replies.last() == replies[replies.len() - 1]);
    }
    reveal_strlit("CDP error on ");
    reveal_strlit(": ");
    reveal_strlit("Target.createTarget");
    reveal_strlit("Target.attachToTarget");
    reveal_strlit("Emulation.setDeviceMetricsOverride");
    reveal_strlit("CDP error on Target.createTarget: ");
    reveal_strlit("CDP error on Target.attachToTarget: ");
    reveal_strlit("CDP error on Emulation.setDeviceMetricsOverride: ");
    assert("CDP error on "@ + "Target.createTarget"@ + ": "@
        =~= "CDP error on Target.createTarget: "@);
    assert("CDP error on "@ + "Target.attachToTarget"@ + ": "@
        =~= "CDP error on Target.attachToTarget: "@);
    assert("CDP error on "@ + "Emulation.setDeviceMetricsOverride"@ + ": "@
        =~= "CDP error on Emulation.setDeviceMetricsOverride: "@);
}

/// A page is talked to in its own session, and what a start comes to is seen as it
/// is.
pub proof fn law_starts_are_seen_as_they_are(
    page: Page,
    s: SessionView,
    startup: Startup,
    sent: Sent,
    n: u64,
    error: Error,
    next: Opening,
)
    ensures
        talk(page, s).session == s,
        talk(page, s).session_id == page.session_id@,
        Opening::Exchange(startup, sent, n)@ == OpeningView::Exchange(
            startup@,
            sent.ids@,
            sent.bytes@,
            n,
        ),
        Opening::Ready(page)@ == OpeningView::Ready(page.session_id@),
        opening_told(Ok::<Opening, Error>(next)) == Ok::<OpeningView, Seq<char>>(next@),
        opening_told(Err::<Opening, Error>(error)) == Err::<OpeningView, Seq<char>>(error.text()),
{
}

} // verus!
