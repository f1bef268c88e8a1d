//! Promises on the conversation with the browser.
use vstd::prelude::*;

use crate::codec::bytes_text;
use crate::frame::reading;
use crate::frame::Reading;
use crate::json::json_text;
use crate::json::Json;
use crate::json::JsonView;
use crate::laws::documents::lemma_object_3;
use crate::laws::documents::lemma_object_4;
use crate::session::batch_bytes;
use crate::session::batch_result;
use crate::session::batch_results;
use crate::session::command_result;
use crate::session::handshake;
use crate::session::law_batch_reads_back;
use crate::session::lemma_after;
use crate::session::lemma_after_after;
use crate::session::lemma_batch_front;
use crate::session::message;
use crate::session::message_id;
use crate::session::messages_view;
use crate::session::opt_text;
use crate::session::others;
use crate::session::replies_view;
use crate::session::url_host;
use crate::session::url_path;
use crate::session::waited_for;
use crate::session::waiting;
use crate::session::Delivery;
use crate::session::DeliveryView;
use crate::session::Reply;
use crate::session::ReplyView;
use crate::session::Sent;
use crate::session::SessionView;
use crate::text::lemma_first_of_is;

verus! {

/// The document of a command, as the DevTools protocol has it.
pub open spec fn command(
    id: int,
    method: Seq<char>,
    params: JsonView,
    session_id: Option<Seq<char>>,
) -> JsonView {
    match session_id {
        Some(sid) => JsonView::Object(
            map![
                "id"@ => JsonView::Integer(id),
                "method"@ => JsonView::Text(method),
                "params"@ => params,
                "sessionId"@ => JsonView::Text(sid),
            ],
        ),
        None => JsonView::Object(
            map![
                "id"@ => JsonView::Integer(id),
                "method"@ => JsonView::Text(method),
                "params"@ => params,
            ],
        ),
    }
}

/// Tells whether the browser reads these documents in these bytes, one after the
/// other, and nothing else.
pub open spec fn reads_as(bytes: Seq<u8>, documents: Seq<JsonView>) -> bool
    decreases documents.len(),
{
    if documents.len() == 0 {
        bytes.len() == 0
    } else {
        match reading(bytes) {
            Reading::Payload { size, payload } => {
                &&& bytes_text(payload) == json_text(documents[0])
                &&& reads_as(bytes.skip(size), documents.skip(1))
            },
            _ => false,
        }
    }
}

/// The number of the command that is so many commands ahead.
pub open spec fn number_ahead(s: SessionView, i: int) -> int {
    (s.next_id + i) % 0x1_0000_0000_0000_0000
}

/// The message that carries a command holds its number, its method, its parameters
/// and its session, each under its name, and nothing else.
pub proof fn law_command_is_this_document(
    id: u64,
    method: Seq<char>,
    params: JsonView,
    session_id: Option<Seq<char>>,
)
    ensures
        message(id, method, params, session_id) == command(id as int, method, params, session_id),
{
    let head = seq![
        ("id"@, JsonView::Integer(id as int)),
        ("method"@, JsonView::Text(method)),
        ("params"@, params),
    ];
    match session_id {
        Some(sid) => {
            let all = head.push(("sessionId"@, JsonView::Text(sid)));
            assert(all =~= seq![
                ("id"@, JsonView::Integer(id as int)),
                ("method"@, JsonView::Text(method)),
                ("params"@, params),
                ("sessionId"@, JsonView::Text(sid)),
            ]);
            lemma_object_4(
                "id"@,
                JsonView::Integer(id as int),
                "method"@,
                JsonView::Text(method),
                "params"@,
                params,
                "sessionId"@,
                JsonView::Text(sid),
            );
        },
        None => {
            lemma_object_3(
                "id"@,
                JsonView::Integer(id as int),
                "method"@,
                JsonView::Text(method),
                "params"@,
                params,
            );
        },
    }
}

/// The documents of a row of commands.
pub open spec fn documents(
    s: SessionView,
    messages: Seq<(Seq<char>, JsonView)>,
    session_id: Option<Seq<char>>,
) -> Seq<JsonView> {
    Seq::new(
        messages.len(),
        |i: int| command(number_ahead(s, i), messages[i].0, messages[i].1, session_id),
    )
}

proof fn lemma_number_ahead(s: SessionView, i: int)
    requires
        0 <= i,
    ensures
        number_ahead(s, 0) == s.next_id,
        number_ahead(s.after(1), i) == number_ahead(s, i + 1),
{
    lemma_after(s, 1);
}

proof fn lemma_documents(
    s: SessionView,
    messages: Seq<(Seq<char>, JsonView)>,
    session_id: Option<Seq<char>>,
)
    requires
        messages.len() > 0,
    ensures
        documents(s, messages, session_id)[0] == message(
            s.next_id,
            messages[0].0,
            messages[0].1,
            session_id,
        ),
        documents(s, messages, session_id).skip(1) == documents(
            s.after(1),
            messages.skip(1),
            session_id,
        ),
{
    lemma_number_ahead(s, 0);
    law_command_is_this_document(s.next_id, messages[0].0, messages[0].1, session_id);
    let a = documents(s, messages, session_id).skip(1);
    let b = documents(s.after(1), messages.skip(1), session_id);
    assert forall|i: int| 0 <= i < a.len() implies a[i] == b[i] by {
        lemma_number_ahead(s, i);
    }
    assert(a =~= b);
}

/// The browser reads every command of a batch, in the order in which they were
/// given, under numbers that follow one another, and nothing else.
pub proof fn law_batch_is_read_in_order(
    s: SessionView,
    messages: Seq<(Seq<char>, JsonView)>,
    session_id: Option<Seq<char>>,
)
    requires
        batch_bytes(s, messages, session_id).len() <= u64::MAX,
    ensures
        reads_as(batch_bytes(s, messages, session_id), documents(s, messages, session_id)),
    decreases messages.len(),
{
    let all = documents(s, messages, session_id);
    let bytes = batch_bytes(s, messages, session_id);
    if messages.len() > 0 {
        let none = Seq::<u8>::empty();
        let rest = batch_bytes(s.after(1), messages.skip(1), session_id);
        lemma_batch_front(s, messages, session_id);
        law_batch_is_read_in_order(s.after(1), messages.skip(1), session_id);
        lemma_documents(s, messages, session_id);
        assert(match reading(bytes) {
            Reading::Payload { size, payload } => bytes_text(payload) == json_text(all[0])
                && bytes.skip(size) == rest,
            _ => false,
        }) by {
            law_batch_reads_back(s, messages, session_id, none);
            assert(bytes + none =~= bytes);
            assert(rest + none =~= rest);
        }
    }
}

/// Commands are numbered one after the other, from the next number on, and each is
/// awaited; nothing else in the conversation changes.
pub proof fn law_commands_are_counted(s: SessionView, n: nat, i: int)
    requires
        0 <= i < n,
    ensures
        s.after(0) == s,
        s.after(1) == (SessionView {
            next_id: (if s.next_id == u64::MAX {
                0
            } else {
                (s.next_id + 1) as u64
            }),
            pending: s.pending.insert(s.next_id),
            ..s
        }),
        s.after(n) == s.after((n - 1) as nat).after(1),
        s.ids(n).len() == n,
        s.ids(n)[i] == number_ahead(s, i),
        SessionView::fresh() == (SessionView {
            next_id: 1,
            pending: Set::empty(),
            next_token: 1,
            subs: Seq::empty(),
        }),
{
    reveal_with_fuel(SessionView::after, 2);
    lemma_after_after(s, (n - 1) as nat, 1);
    lemma_after(s, i as nat);
}

/// A subscription gets the next token, stands behind the others, and changes
/// nothing else.
pub proof fn law_subscriptions_are_counted(s: SessionView, method: Seq<char>)
    ensures
        s.subscribed(method) == (SessionView {
            next_token: (if s.next_token == u64::MAX {
                0
            } else {
                (s.next_token + 1) as u64
            }),
            subs: s.subs.push((method, s.next_token)),
            ..s
        }),
{
}

proof fn lemma_waiting(subs: Seq<(Seq<char>, u64)>, method: Seq<char>)
    ensures
        waiting(subs, method) == subs.filter(|e: (Seq<char>, u64)| e.0 == method).map_values(
            |e: (Seq<char>, u64)| e.1,
        ),
        others(subs, method) == subs.filter(|e: (Seq<char>, u64)| e.0 != method),
    decreases subs.len(),
{
    reveal(Seq::filter);
    let token = |e: (Seq<char>, u64)| e.1;
    let same = |e: (Seq<char>, u64)| e.0 == method;
    if subs.len() > 0 {
        lemma_waiting(subs.drop_last(), method);
        let before = subs.drop_last().filter(same);
        assert(before.push(subs.last()).map_values(token) =~= before.map_values(token).push(
            subs.last().1,
        ));
    } else {
        assert(subs.filter(same).map_values(token) =~= Seq::<u64>::empty());
    }
}

/// A message that carries a number is for the sender of the command with that
/// number, once; one that carries none is for all who subscribed to its event, the
/// last first, and they are told once; any other message is for nobody.
pub proof fn law_messages_are_for_who_waits(s: SessionView, msg: JsonView, method: Seq<char>)
    ensures
        has_number(msg) ==> {
            let id = msg.get("id"@)->Some_0->Integer_0 as u64;
            &&& s.delivery(msg) == (if s.pending.contains(id) {
                DeliveryView::Reply(id)
            } else {
                DeliveryView::Nobody
            })
            &&& s.delivered(msg) == (SessionView { pending: s.pending.remove(id), ..s })
        },
        !has_number(msg) && msg.get("method"@) == Some(JsonView::Text(method)) ==> {
            &&& s.delivery(msg) == DeliveryView::Event(
                s.subs.filter(|e: (Seq<char>, u64)| e.0 == method).map_values(
                    |e: (Seq<char>, u64)| e.1,
                ).reverse(),
            )
            &&& s.delivered(msg) == (SessionView {
                subs: s.subs.filter(|e: (Seq<char>, u64)| e.0 != method),
                ..s
            })
        },
        !has_number(msg) && (msg.get("method"@) is None || !(msg.get("method"@)->Some_0 is Text))
            ==> {
            &&& s.delivery(msg) == DeliveryView::Nobody
            &&& s.delivered(msg) == s
        },
        message_id(msg) is Some <==> has_number(msg),
{
    lemma_waiting(s.subs, method);
}

/// Tells whether a message carries the number of a command.
pub open spec fn has_number(msg: JsonView) -> bool {
    msg.get("id"@) matches Some(id) && id is Integer && 0 <= id->Integer_0 <= u64::MAX
}

/// A command comes to its result where it was answered without an error; to the
/// error, with the command that it is about, where the answer holds one; and to a
/// failure of its own where there is no answer.
pub proof fn law_command_comes_to_this(method: Seq<char>, answer: JsonView)
    ensures
        answer.get("error"@) is None && answer.get("result"@) is Some ==> command_result(
            method,
            ReplyView::Arrived(answer),
        ) == Ok::<JsonView, Seq<char>>(answer.get("result"@)->Some_0),
        answer.get("error"@) is None && answer.get("result"@) is None ==> command_result(
            method,
            ReplyView::Arrived(answer),
        ) == Ok::<JsonView, Seq<char>>(JsonView::Null),
        answer.get("error"@) is Some ==> command_result(method, ReplyView::Arrived(answer)) == Err::<
            JsonView,
            Seq<char>,
        >("CDP error on "@ + method + ": "@ + json_text(answer.get("error"@)->Some_0)),
        command_result(method, ReplyView::TimedOut) == Err::<JsonView, Seq<char>>(
            "command timed out"@,
        ),
        command_result(method, ReplyView::Lost) == Err::<JsonView, Seq<char>>("channel closed"@),
        answer.get("error"@) is None && answer.get("result"@) is Some ==> batch_result(
            ReplyView::Arrived(answer),
        ) == Ok::<JsonView, Seq<char>>(answer.get("result"@)->Some_0),
        answer.get("error"@) is None && answer.get("result"@) is None ==> batch_result(
            ReplyView::Arrived(answer),
        ) == Ok::<JsonView, Seq<char>>(JsonView::Null),
        answer.get("error"@) is Some ==> batch_result(ReplyView::Arrived(answer)) == Err::<
            JsonView,
            Seq<char>,
        >("CDP batch error: "@ + json_text(answer.get("error"@)->Some_0)),
        batch_result(ReplyView::TimedOut) == Err::<JsonView, Seq<char>>(
            "batch command timed out"@,
        ),
        batch_result(ReplyView::Lost) == Err::<JsonView, Seq<char>>("channel closed"@),
{
}

/// A batch comes to the results of its commands, in their order, or to the failure
/// of the first of them that failed.
pub proof fn law_batch_comes_to_this(replies: Seq<ReplyView>, last: ReplyView)
    ensures
        batch_results(Seq::empty()) == Ok::<Seq<JsonView>, Seq<char>>(Seq::empty()),
        batch_results(replies.push(last)) == match batch_results(replies) {
            Err(first) => Err(first),
            Ok(before) => match batch_result(last) {
                Err(failure) => Err(failure),
                Ok(result) => Ok(before.push(result)),
            },
        },
{
    assert(replies.push(last).drop_last() =~= replies);
}

/// So many commands were waited for where there are so many answers, or where the
/// last answer that there is is a failure.
pub proof fn law_every_command_is_waited_for(replies: Seq<ReplyView>, last: ReplyView, n: nat)
    ensures
        waited_for(replies, replies.len()),
        replies.len() > n ==> !waited_for(replies, n),
        n > 0 ==> !waited_for(Seq::empty(), n),
        replies.len() + 1 < n ==> (waited_for(replies.push(last), n) <==> batch_result(
            last,
        ) is Err),
{
}

/// An address is split at the first slash behind its scheme: the host stands before
/// it, the path from it on, and a slash is the path where there is none. The
/// request for the path goes to the host, with the key.
pub proof fn law_address_is_split(host: Seq<char>, path: Seq<char>, key: Seq<char>)
    requires
        !host.contains('/'),
        path.len() > 0 ==> path[0] == '/',
    ensures
        ({
            let url = "ws://"@ + host + path;
            let asked = if path.len() > 0 {
                path
            } else {
                "/"@
            };
            &&& url_host(url) == host
            &&& url_path(url) == asked
            &&& handshake(url, key) == "GET "@ + asked + " HTTP/1.1\r\nHost: "@ + host
                + "\r\nUpgrade: websocket\r\nConnection: Upgrade\r\nSec-WebSocket-Key: "@ + key
                + "\r\nSec-WebSocket-Version: 13\r\n\r\n"@
        }),
        host != "ws:"@ ==> url_host(host + path) == host && url_path(host + path) == (
        if path.len() > 0 {
            path
        } else {
            "/"@
        }),
{
    reveal_strlit("ws://");
    reveal_strlit("ws:");
    let scheme = "ws://"@;
    assert(scheme.len() == 5 && scheme[0] == 'w' && scheme[1] == 's' && scheme[2] == ':' && scheme[3]
        == '/' && scheme[4] == '/');
    let url = scheme + host + path;
    let rest = host + path;
    assert(url.take(5) =~= scheme);
    assert(url.skip(5) =~= rest);
    let at = host.len() as int;
    assert forall|i: int| 0 <= i < at implies rest[i] != '/' by {
        assert(rest[i] == host[i]);
        assert(host.contains(host[i]));
    }
    assert(at < rest.len() ==> rest[at] == path[0]);
    lemma_first_of_is(rest, '/', '/', at);
    assert(rest.take(at) =~= host);
    assert(rest.skip(at) =~= path);
    if host != "ws:"@ && rest.len() >= 5 && rest.take(5) == scheme {
        assert(rest[3] == rest.take(5)[3] && rest[0] == rest.take(5)[0] && rest[1] == rest.take(
            5,
        )[1] && rest[2] == rest.take(5)[2]);
        assert(at <= 3);
        assert(at < rest.len() ==> rest[at] == '/');
        assert(at == 3);
        assert(host =~= "ws:"@);
    }
}

/// What was sent is what it is said to be: numbers and bytes of these commands.
pub proof fn law_sent_is_what_it_says(
    sent: Sent,
    s: SessionView,
    messages: Seq<(Seq<char>, JsonView)>,
    session_id: Option<Seq<char>>,
)
    requires
        sent.carries(s, messages, session_id),
    ensures
        sent.ids@.len() == messages.len(),
        forall|i: int|
            0 <= i < messages.len() ==> #[trigger] sent.ids@[i] == number_ahead(s, i),
        sent.bytes@.len() <= u64::MAX ==> reads_as(
            sent.bytes@,
            documents(s, messages, session_id),
        ),
{
    assert forall|i: int| 0 <= i < messages.len() implies #[trigger] sent.ids@[i] == number_ahead(
        s,
        i,
    ) by {
        law_commands_are_counted(s, messages.len(), i);
    }
    if sent.bytes@.len() <= u64::MAX {
        law_batch_is_read_in_order(s, messages, session_id);
    }
}

/// Answers and deliveries are seen as they are.
pub proof fn law_answers_are_seen_as_they_are(
    json: Json,
    id: u64,
    tokens: Vec<u64>,
    replies: Seq<Reply>,
    i: int,
    messages: Seq<(&str, Json)>,
    text: Option<&str>,
)
    ensures
        Reply::Arrived(json)@ == ReplyView::Arrived(json@),
        Reply::TimedOut@ == ReplyView::TimedOut,
        Reply::Lost@ == ReplyView::Lost,
        Delivery::Reply(id)@ == DeliveryView::Reply(id),
        Delivery::Event(tokens)@ == DeliveryView::Event(tokens@),
        Delivery::Nobody@ == DeliveryView::Nobody,
        replies_view(replies).len() == replies.len(),
        0 <= i < replies.len() ==> replies_view(replies)[i] == replies[i]@,
        messages_view(messages).len() == messages.len(),
        0 <= i < messages.len() ==> messages_view(messages)[i] == (messages[i].0@, messages[i].1@),
        opt_text(text) == match text {
            Some(s) => Some(s@),
            None => None,
        },
{
}

} // verus!
