//! The conversation with the browser.
use std::collections::HashSet;
use vstd::prelude::*;

use crate::codec::base64_encode;
use crate::codec::base64_text;
use crate::codec::bytes_text;
use crate::codec::text_from_bytes;
use crate::error::told;
use crate::error::Error;
use crate::frame::encode_ws_frame;
use crate::frame::law_text_reads_back;
use crate::frame::reading;
use crate::frame::text_frame;
use crate::frame::Reading;
use crate::json::items_view;
use crate::json::json_parsed;
use crate::json::json_text;
use crate::json::members;
use crate::json::object;
use crate::json::Json;
use crate::json::JsonView;
use crate::json::Members;
use crate::text::chars_of;
use crate::text::contains_text;
use crate::text::find_first;
use crate::text::first_of;
use crate::text::has_part;
use crate::text::lemma_first_of;
use crate::text::string_of;
use crate::text::text_eq;

verus! {

/// An address without the scheme `ws`.
pub open spec fn without_scheme(url: Seq<char>) -> Seq<char> {
    if url.len() >= 5 && url.take(5) == "ws://"@ {
        url.skip(5)
    } else {
        url
    }
}

/// The host with its port in an address: what stands before the first slash.
pub open spec fn url_host(url: Seq<char>) -> Seq<char> {
    let rest = without_scheme(url);
    rest.take(first_of(rest, '/', '/'))
}

/// The path in an address: what stands from the first slash on, or a slash where
/// there is none.
pub open spec fn url_path(url: Seq<char>) -> Seq<char> {
    let rest = without_scheme(url);
    let at = first_of(rest, '/', '/');
    if at < rest.len() {
        rest.skip(at)
    } else {
        "/"@
    }
}

/// The request that asks a server to switch to the websocket protocol.
pub open spec fn handshake(url: Seq<char>, key: Seq<char>) -> Seq<char> {
    "GET "@ + url_path(url) + " HTTP/1.1\r\nHost: "@ + url_host(url)
        + "\r\nUpgrade: websocket\r\nConnection: Upgrade\r\nSec-WebSocket-Key: "@ + key
        + "\r\nSec-WebSocket-Version: 13\r\n\r\n"@
}

/// The key that the request carries.
pub open spec fn handshake_key() -> Seq<char> {
    base64_text(vstd::utf8::encode_utf8("flashwright-cdp!!"@))
}

/// Whom to connect to, and what to say first.
#[derive(Debug, PartialEq, Eq)]
pub struct Handshake {
    pub host_port: String,
    pub request: String,
}

/// A command on its way: the numbers that its answers will carry, and the bytes
/// to write.
#[derive(Debug, PartialEq, Eq)]
pub struct Sent {
    pub ids: Vec<u64>,
    pub bytes: Vec<u8>,
}

/// Who is waiting for a message.
#[derive(Debug, PartialEq, Eq)]
pub enum Delivery {
    /// The sender of the command with this number.
    Reply(u64),
    /// These subscribers, in this order.
    Event(Vec<u64>),
    /// Nobody.
    Nobody,
}

/// Who is waiting for a message.
pub enum DeliveryView {
    Reply(u64),
    Event(Seq<u64>),
    Nobody,
}

impl View for Delivery {
    type V = DeliveryView;

    open spec fn view(&self) -> DeliveryView {
        match self {
            Delivery::Reply(id) => DeliveryView::Reply(*id),
            Delivery::Event(tokens) => DeliveryView::Event(tokens@),
            Delivery::Nobody => DeliveryView::Nobody,
        }
    }
}

/// The state of a conversation: the next number, the numbers of the commands that
/// are not answered yet, the next subscription and the subscriptions, each under
/// the event that it waits for, the oldest first.
pub ghost struct SessionView {
    pub next_id: u64,
    pub pending: Set<u64>,
    pub next_token: u64,
    pub subs: Seq<(Seq<char>, u64)>,
}

/// The number after a number: zero after the last.
pub open spec fn successor(n: u64) -> u64 {
    if n == u64::MAX {
        0
    } else {
        (n + 1) as u64
    }
}

/// The subscriptions that wait for an event, the oldest first.
pub open spec fn waiting(subs: Seq<(Seq<char>, u64)>, method: Seq<char>) -> Seq<u64>
    decreases subs.len(),
{
    if subs.len() == 0 {
        Seq::empty()
    } else if subs.last().0 == method {
        waiting(subs.drop_last(), method).push(subs.last().1)
    } else {
        waiting(subs.drop_last(), method)
    }
}

/// The subscriptions that wait for other events, the oldest first.
pub open spec fn others(subs: Seq<(Seq<char>, u64)>, method: Seq<char>) -> Seq<(Seq<char>, u64)>
    decreases subs.len(),
{
    if subs.len() == 0 {
        Seq::empty()
    } else if subs.last().0 == method {
        others(subs.drop_last(), method)
    } else {
        others(subs.drop_last(), method).push(subs.last())
    }
}

impl SessionView {
    /// The state at the start.
    pub open spec fn fresh() -> SessionView {
        SessionView { next_id: 1, pending: Set::empty(), next_token: 1, subs: Seq::empty() }
    }

    /// The state after so many commands.
    pub open spec fn after(self, n: nat) -> SessionView
        decreases n,
    {
        if n == 0 {
            self
        } else {
            let before = self.after((n - 1) as nat);
            SessionView {
                next_id: successor(before.next_id),
                pending: before.pending.insert(before.next_id),
                ..before
            }
        }
    }

    /// The numbers of the next so many commands.
    pub open spec fn ids(self, n: nat) -> Seq<u64> {
        Seq::new(n, |i: int| self.after(i as nat).next_id)
    }

    /// The state after a subscription.
    pub open spec fn subscribed(self, method: Seq<char>) -> SessionView {
        SessionView {
            next_token: successor(self.next_token),
            subs: self.subs.push((method, self.next_token)),
            ..self
        }
    }

    /// Who is waiting for a message: the sender of the command with its number,
    /// and where it has none, the subscribers of its event, the newest first.
    pub open spec fn delivery(self, msg: JsonView) -> DeliveryView {
        match message_id(msg) {
            Some(id) => if self.pending.contains(id) {
                DeliveryView::Reply(id)
            } else {
                DeliveryView::Nobody
            },
            None => match msg.get_str("method"@) {
                Some(method) => DeliveryView::Event(waiting(self.subs, method).reverse()),
                None => DeliveryView::Nobody,
            },
        }
    }

    /// The state after a message: whom it was for waits no more.
    pub open spec fn delivered(self, msg: JsonView) -> SessionView {
        match message_id(msg) {
            Some(id) => SessionView { pending: self.pending.remove(id), ..self },
            None => match msg.get_str("method"@) {
                Some(method) => SessionView { subs: others(self.subs, method), ..self },
                None => self,
            },
        }
    }
}

/// The number that a message carries.
pub open spec fn message_id(msg: JsonView) -> Option<u64> {
    match msg.get("id"@) {
        Some(id) => id.as_u64(),
        None => None,
    }
}

/// The message that carries a command.
pub open spec fn message(
    id: u64,
    method: Seq<char>,
    params: JsonView,
    session_id: Option<Seq<char>>,
) -> JsonView {
    let head = seq![
        ("id"@, JsonView::Integer(id as int)),
        ("method"@, JsonView::Text(method)),
        ("params"@, params),
    ];
    match session_id {
        Some(sid) => object(head.push(("sessionId"@, JsonView::Text(sid)))),
        None => object(head),
    }
}

/// The bytes that carry a row of commands, one frame for each.
pub open spec fn batch_bytes(
    state: SessionView,
    messages: Seq<(Seq<char>, JsonView)>,
    session_id: Option<Seq<char>>,
) -> Seq<u8>
    decreases messages.len(),
{
    if messages.len() == 0 {
        Seq::empty()
    } else {
        let last = messages.last();
        let id = state.after((messages.len() - 1) as nat).next_id;
        batch_bytes(state, messages.drop_last(), session_id) + text_frame(
            json_text(message(id, last.0, last.1, session_id)),
        )
    }
}

impl Sent {
    /// Tells whether these are the numbers and the bytes of a row of commands.
    pub open spec fn carries(
        self,
        state: SessionView,
        messages: Seq<(Seq<char>, JsonView)>,
        session_id: Option<Seq<char>>,
    ) -> bool {
        &&& self.ids@ == state.ids(messages.len())
        &&& self.bytes@ == batch_bytes(state, messages, session_id)
    }
}

/// A conversation with the browser.
pub struct Session {
    next_id: u64,
    pending: HashSet<u64>,
    next_token: u64,
    event_subs: Vec<(String, u64)>,
}

/// Subscriptions by the names of their events.
pub open spec fn subs_view(subs: Seq<(String, u64)>) -> Seq<(Seq<char>, u64)> {
    subs.map_values(|e: (String, u64)| (e.0@, e.1))
}

impl View for Session {
    type V = SessionView;

    closed spec fn view(&self) -> SessionView {
        SessionView {
            next_id: self.next_id,
            pending: self.pending@,
            next_token: self.next_token,
            subs: subs_view(self.event_subs@),
        }
    }
}

/// The text of an optional text.
pub open spec fn opt_text(s: Option<&str>) -> Option<Seq<char>> {
    match s {
        Some(s) => Some(s@),
        None => None,
    }
}

/// Names and documents of commands.
pub open spec fn messages_view(messages: Seq<(&str, Json)>) -> Seq<(Seq<char>, JsonView)> {
    messages.map_values(|m: (&str, Json)| (m.0@, m.1@))
}

fn next_number(n: u64) -> (out: u64)
    ensures
        out == successor(n),
{
    if n == u64::MAX {
        0
    } else {
        n + 1
    }
}

/// What came of waiting for an answer.
#[derive(Debug, PartialEq)]
pub enum Reply {
    /// The answer.
    Arrived(Json),
    /// No answer in time.
    TimedOut,
    /// No answer will come any more.
    Lost,
}

/// What came of waiting for an answer.
pub enum ReplyView {
    Arrived(JsonView),
    TimedOut,
    Lost,
}

impl View for Reply {
    type V = ReplyView;

    open spec fn view(&self) -> ReplyView {
        match self {
            Reply::Arrived(json) => ReplyView::Arrived(json@),
            Reply::TimedOut => ReplyView::TimedOut,
            Reply::Lost => ReplyView::Lost,
        }
    }
}

impl Clone for Reply {
    fn clone(&self) -> (out: Reply)
        ensures
            out@ == self@,
    {
        match self {
            Reply::Arrived(json) => Reply::Arrived(json.clone()),
            Reply::TimedOut => Reply::TimedOut,
            Reply::Lost => Reply::Lost,
        }
    }
}

/// What the answers say.
pub open spec fn replies_view(replies: Seq<Reply>) -> Seq<ReplyView> {
    replies.map_values(|r: Reply| r@)
}

/// The result in an answer: nothing where the answer holds none.
pub open spec fn result_of(answer: JsonView) -> JsonView {
    match answer.get("result"@) {
        Some(result) => result,
        None => JsonView::Null,
    }
}

/// What a command comes to.
pub open spec fn command_result(method: Seq<char>, reply: ReplyView) -> Result<
    JsonView,
    Seq<char>,
> {
    match reply {
        ReplyView::Arrived(answer) => match answer.get("error"@) {
            Some(error) => Err("CDP error on "@ + method + ": "@ + json_text(error)),
            None => Ok(result_of(answer)),
        },
        ReplyView::TimedOut => Err("command timed out"@),
        ReplyView::Lost => Err("channel closed"@),
    }
}

/// What a command of a batch comes to.
pub open spec fn batch_result(reply: ReplyView) -> Result<JsonView, Seq<char>> {
    match reply {
        ReplyView::Arrived(answer) => match answer.get("error"@) {
            Some(error) => Err("CDP batch error: "@ + json_text(error)),
            None => Ok(result_of(answer)),
        },
        ReplyView::TimedOut => Err("batch command timed out"@),
        ReplyView::Lost => Err("channel closed"@),
    }
}

/// Tells whether so many commands were waited for: there are as many answers, or
/// fewer where the last of them is a failure.
pub open spec fn waited_for(replies: Seq<ReplyView>, n: nat) -> bool {
    ||| replies.len() == n
    ||| 0 < replies.len() < n && batch_result(replies.last()) is Err
}

/// What a batch comes to: all the results, or the first failure.
pub open spec fn batch_results(replies: Seq<ReplyView>) -> Result<Seq<JsonView>, Seq<char>>
    decreases replies.len(),
{
    if replies.len() == 0 {
        Ok(Seq::empty())
    } else {
        match batch_results(replies.drop_last()) {
            Err(error) => Err(error),
            Ok(before) => match batch_result(replies.last()) {
                Err(error) => Err(error),
                Ok(result) => Ok(before.push(result)),
            },
        }
    }
}

/// The message that carries a command.
pub fn command_message(id: u64, method: &str, params: Json, session_id: Option<&str>) -> (msg: Json)
    ensures
        msg@ == message(id, method@, params@, opt_text(session_id)),
{
    let head = Members::new().with("id", Json::from_number(id)).with(
        "method",
        Json::from_text(method),
    ).with("params", params);
    assert(head@ =~= seq![
        ("id"@, JsonView::Integer(id as int)),
        ("method"@, JsonView::Text(method@)),
        ("params"@, params@),
    ]);
    match session_id {
        Some(sid) => head.with("sessionId", Json::from_text(sid)).object(),
        None => head.object(),
    }
}

/// Tells whether the head of an answer is complete: it ends with an empty line.
pub fn head_complete(read: &[u8]) -> (done: bool)
    ensures
        done == (read@.len() >= 4 && read@.skip(read@.len() - 4) == seq![13u8, 10u8, 13u8, 10u8]),
{
    let n: usize = read.len();
    let done = n >= 4 && read[n - 4] == 13 && read[n - 3] == 10 && read[n - 2] == 13 && read[n - 1]
        == 10;
    proof {
        if n >= 4 {
            let end = read@.skip(n - 4);
            if done {
                assert(end =~= seq![13u8, 10u8, 13u8, 10u8]);
            } else if end == seq![13u8, 10u8, 13u8, 10u8] {
                assert(end[0] == 13 && end[1] == 10 && end[2] == 13 && end[3] == 10);
            }
        }
    }
    done
}

impl Handshake {
    /// Whom to connect to for an address, and what to say first, with this key.
    pub fn new(url: &str, key: &str) -> (out: Handshake)
        ensures
            out.host_port@ == url_host(url@),
            out.request@ == handshake(url@, key@),
    {
        let chars = chars_of(url);
        let n: usize = chars.len();
        let start: usize = if n >= 5 && chars[0] == 'w' && chars[1] == 's' && chars[2] == ':'
            && chars[3] == '/' && chars[4] == '/' {
            5
        } else {
            0
        };
        proof {
            reveal_strlit("ws://");
            if n >= 5 {
                if start == 5 {
                    assert(url@.take(5) =~= "ws://"@);
                } else if url@.take(5) == "ws://"@ {
                    assert(url@.take(5)[0] == 'w' && url@.take(5)[1] == 's' && url@.take(5)[2]
                        == ':' && url@.take(5)[3] == '/' && url@.take(5)[4] == '/');
                }
            }
            assert(url@.skip(0) =~= url@);
        }
        let text = string_of(&chars, start, n);
        assert(text@ =~= without_scheme(url@));
        let rest = chars_of(text.as_str());
        let at: usize = find_first(&rest, '/', '/');
        proof {
            lemma_first_of(rest@, '/', '/');
        }
        let host_port = string_of(&rest, 0, at);
        assert(host_port@ =~= url_host(url@));
        let path = if at < rest.len() {
            string_of(&rest, at, rest.len())
        } else {
            "/".to_owned()
        };
        assert(path@ =~= url_path(url@));
        let mut request = "GET ".to_owned();
        request.append(path.as_str());
        request.append(" HTTP/1.1\r\nHost: ");
        request.append(host_port.as_str());
        request.append("\r\nUpgrade: websocket\r\nConnection: Upgrade\r\nSec-WebSocket-Key: ");
        request.append(key);
        request.append("\r\nSec-WebSocket-Version: 13\r\n\r\n");
        Handshake { host_port, request }
    }
}

impl Session {
    /// Whom to connect to for an address, and what to say first.
    pub fn connect(url: &str) -> (out: Handshake)
        ensures
            out.host_port@ == url_host(url@),
            out.request@ == handshake(url@, handshake_key()),
    {
        let key = "flashwright-cdp!!";
        proof {
            reveal_strlit("flashwright-cdp!!");
            vstd::utf8::is_ascii_chars_encode_utf8(key@);
        }
        let encoded = base64_encode(key.as_bytes());
        Handshake::new(url, encoded.as_str())
    }

    /// Starts a conversation once the server has answered the handshake: the
    /// answer holds the number 101 where the server switches the protocol.
    pub fn open(answer: &[u8]) -> (out: Result<Session, Error>)
        ensures
            match out {
                Ok(session) => has_part(bytes_text(answer@), "101"@) && session@
                    == SessionView::fresh(),
                Err(error) => !has_part(bytes_text(answer@), "101"@) && error
                    == Error::HandshakeFailed,
            },
    {
        let text = text_from_bytes(answer);
        if !contains_text(text.as_str(), "101") {
            return Err(Error::HandshakeFailed);
        }
        let session = Session {
            next_id: 1,
            pending: HashSet::new(),
            next_token: 1,
            event_subs: Vec::new(),
        };
        assert(session@.subs =~= SessionView::fresh().subs);
        assert(session@.pending =~= SessionView::fresh().pending);
        Ok(session)
    }

    /// Numbers a command and frames it.
    pub fn send_nowait(&mut self, method: &str, params: Json, session_id: Option<&str>) -> (out:
        Sent)
        ensures
            final(self)@ == old(self)@.after(1),
            out.carries(old(self)@, seq![(method@, params@)], opt_text(session_id)),
    {
        let ghost before = self@;
        let ghost msgs = seq![(method@, params@)];
        let (id, bytes) = self.issue(method, params, session_id);
        proof {
            reveal_with_fuel(SessionView::after, 2);
            reveal_with_fuel(batch_bytes, 2);
            assert(msgs.drop_last() =~= Seq::<(Seq<char>, JsonView)>::empty());
            assert(before.ids(1) =~= seq![id]);
            assert(bytes@ =~= batch_bytes(before, msgs, opt_text(session_id)));
        }
        let mut ids: Vec<u64> = Vec::new();
        ids.push(id);
        assert(ids@ =~= seq![id]);
        Sent { ids, bytes }
    }

    fn issue(&mut self, method: &str, params: Json, session_id: Option<&str>) -> (out: (
        u64,
        Vec<u8>,
    ))
        ensures
            final(self)@ == old(self)@.after(1),
            out.0 == old(self)@.next_id,
            out.1@ == text_frame(
                json_text(message(out.0, method@, params@, opt_text(session_id))),
            ),
    {
        broadcast use vstd::std_specs::hash::group_hash_axioms;

        let ghost before = self@;
        let id: u64 = self.next_id;
        self.next_id = next_number(id);
        let msg = command_message(id, method, params, session_id);
        self.pending.insert(id);
        let text = msg.into_text();
        let bytes = encode_ws_frame(text.as_str());
        proof {
            reveal_with_fuel(SessionView::after, 2);
            assert(self@ == before.after(1));
        }
        (id, bytes)
    }

    /// Numbers a row of commands and frames them, one behind the other.
    pub fn send_batch(&mut self, messages: Vec<(&str, Json)>, session_id: Option<&str>) -> (out:
        Sent)
        ensures
            final(self)@ == old(self)@.after(messages@.len()),
            out.carries(old(self)@, messages_view(messages@), opt_text(session_id)),
    {
        let mut ids: Vec<u64> = Vec::new();
        let mut bytes: Vec<u8> = Vec::new();
        let ghost before = self@;
        let ghost all = messages@;
        let ghost view = messages_view(all);
        assert(view.take(0) =~= Seq::<(Seq<char>, JsonView)>::empty());
        assert(ids@ =~= before.ids(0));
        for entry in it: messages.into_iter()
            invariant
                it.seq() == all,
                view == messages_view(all),
                self@ == before.after(it.index() as nat),
                ids@ == before.ids(it.index() as nat),
                bytes@ == batch_bytes(before, view.take(it.index() as int), opt_text(session_id)),
        {
            let ghost k = it.index() as int;
            let (method, params) = entry;
            assert(view[k] == (method@, params@));
            let ghost mid = self@;
            let (id, mut frame) = self.issue(method, params, session_id);
            proof {
                reveal_with_fuel(SessionView::after, 2);
                assert(mid.after(1) == before.after((k + 1) as nat));
                let longer = view.take(k + 1);
                assert(longer.drop_last() =~= view.take(k));
                assert(before.ids((k + 1) as nat) =~= before.ids(k as nat).push(id));
            }
            bytes.append(&mut frame);
            ids.push(id);
        }
        assert(view.take(all.len() as int) =~= view);
        Sent { ids, bytes }
    }

    /// Subscribes to the next event with a name.
    pub fn subscribe_event(&mut self, method: &str) -> (token: u64)
        ensures
            token == old(self)@.next_token,
            final(self)@ == old(self)@.subscribed(method@),
    {
        let ghost before = self@;
        let token: u64 = self.next_token;
        self.next_token = next_number(token);
        self.event_subs.push((method.to_owned(), token));
        assert(self@.subs =~= before.subs.push((method@, token)));
        token
    }

    /// Says who is waiting for a message; they wait no more.
    pub fn deliver(&mut self, msg: &Json) -> (out: Delivery)
        ensures
            out@ == old(self)@.delivery(msg@),
            final(self)@ == old(self)@.delivered(msg@),
    {
        broadcast use vstd::std_specs::hash::group_hash_axioms;

        let ghost before = self@;
        let id = match msg.get("id") {
            Some(id) => id.as_u64(),
            None => None,
        };
        match id {
            Some(id) => {
                if self.pending.remove(&id) {
                    assert(self@ == before.delivered(msg@));
                    Delivery::Reply(id)
                } else {
                    assert(self@.pending =~= before.pending.remove(id));
                    Delivery::Nobody
                }
            },
            None => match msg.get_str("method") {
                Some(method) => Delivery::Event(self.take_subscribers(method)),
                None => Delivery::Nobody,
            },
        }
    }

    fn take_subscribers(&mut self, method: &str) -> (out: Vec<u64>)
        ensures
            out@ == waiting(old(self)@.subs, method@).reverse(),
            final(self)@ == (SessionView {
                subs: others(old(self)@.subs, method@),
                ..old(self)@
            }),
    {
        let ghost before = self@;
        let ghost subs = before.subs;
        let mut out: Vec<u64> = Vec::new();
        let mut i: usize = self.event_subs.len();
        proof {
            assert(subs.take(i as int) =~= subs);
            assert(subs.skip(i as int) =~= Seq::<(Seq<char>, u64)>::empty());
            assert(waiting(subs.skip(i as int), method@).reverse() =~= out@);
            assert(self@.subs =~= subs.take(i as int) + others(subs.skip(i as int), method@));
        }
        while i > 0
            invariant
                subs == before.subs,
                i <= subs.len(),
                self@ == (SessionView { subs: self@.subs, ..before }),
                self@.subs == subs.take(i as int) + others(subs.skip(i as int), method@),
                out@ == waiting(subs.skip(i as int), method@).reverse(),
            decreases i,
        {
            let ghost tail = subs.skip(i as int);
            let ghost state = self@.subs;
            i = i - 1;
            proof {
                assert(state[i as int] == subs[i as int]);
                assert(self.event_subs@.len() == state.len());
                assert(subs.skip(i as int) =~= seq![subs[i as int]] + tail);
                lemma_one_more(subs[i as int], tail, method@);
            }
            if text_eq(self.event_subs[i].0.as_str(), method) {
                let (_, token) = self.event_subs.remove(i);
                out.push(token);
                assert(self@.subs =~= state.remove(i as int));
                assert(self@.subs =~= subs.take(i as int) + others(subs.skip(i as int), method@));
                assert(out@ =~= waiting(subs.skip(i as int), method@).reverse());
            } else {
                assert(subs.take(i + 1) =~= subs.take(i as int).push(subs[i as int]));
                assert(self@.subs =~= subs.take(i as int) + others(subs.skip(i as int), method@));
            }
        }
        assert(subs.skip(0) =~= subs);
        assert(self@.subs =~= others(subs, method@));
        out
    }

    /// What a command comes to, once it was answered or not.
    pub fn send(method: &str, reply: Reply) -> (out: Result<Json, Error>)
        ensures
            told(out) == command_result(method@, reply@),
    {
        match reply {
            Reply::Arrived(answer) => {
                let failed = answer.get("error").is_some();
                if failed {
                    match answer.take("error") {
                        Some(error) => Err(Error::Refused(method.to_owned(), error.into_text())),
                        None => Err(Error::ReplyLost),
                    }
                } else {
                    match answer.take("result") {
                        Some(result) => Ok(result),
                        None => Ok(Json::Null),
                    }
                }
            },
            Reply::TimedOut => Err(Error::CommandTimedOut),
            Reply::Lost => Err(Error::ReplyLost),
        }
    }

    /// What a command of a batch comes to, once it was answered or not.
    pub fn batched(reply: Reply) -> (out: Result<Json, Error>)
        ensures
            told(out) == batch_result(reply@),
    {
        match reply {
            Reply::Arrived(answer) => {
                let failed = answer.get("error").is_some();
                if failed {
                    match answer.take("error") {
                        Some(error) => Err(Error::BatchRefused(error.into_text())),
                        None => Err(Error::ReplyLost),
                    }
                } else {
                    match answer.take("result") {
                        Some(result) => Ok(result),
                        None => Ok(Json::Null),
                    }
                }
            },
            Reply::TimedOut => Err(Error::BatchTimedOut),
            Reply::Lost => Err(Error::ReplyLost),
        }
    }

    /// What a batch comes to: all the results, or the first failure. Answers
    /// behind the first failure make no difference.
    pub fn await_all(replies: Vec<Reply>) -> (out: Result<Vec<Json>, Error>)
        ensures
            match out {
                Ok(results) => batch_results(replies_view(replies@)) == Ok::<
                    Seq<JsonView>,
                    Seq<char>,
                >(items_view(results@)),
                Err(error) => batch_results(replies_view(replies@)) == Err::<
                    Seq<JsonView>,
                    Seq<char>,
                >(error.text()),
            },
    {
        let mut results: Vec<Json> = Vec::new();
        let ghost all = replies@;
        let ghost view = replies_view(all);
        assert(view.take(0) =~= Seq::<ReplyView>::empty());
        assert(items_view(results@) =~= Seq::<JsonView>::empty());
        for reply in it: replies.into_iter()
            invariant
                it.seq() == all,
                view == replies_view(all),
                batch_results(view.take(it.index() as int)) == Ok::<Seq<JsonView>, Seq<char>>(
                    items_view(results@),
                ),
        {
            let ghost k = it.index() as int;
            assert(view.take(k + 1).drop_last() =~= view.take(k));
            assert(view.take(k + 1).last() == reply@);
            match Session::batched(reply) {
                Ok(result) => {
                    assert(items_view(results@.push(result)) =~= items_view(results@).push(
                        result@,
                    ));
                    results.push(result);
                },
                Err(error) => {
                    proof {
                        law_first_failure_decides(view, k + 1);
                    }
                    return Err(error);
                },
            }
        }
        assert(view.take(all.len() as int) =~= view);
        Ok(results)
    }

    /// Tells whether so many commands were waited for.
    pub fn awaited(replies: &Vec<Reply>, n: usize) -> (out: bool)
        ensures
            out == waited_for(replies_view(replies@), n as nat),
    {
        let found: usize = replies.len();
        if found == n {
            return true;
        }
        if found == 0 || found > n {
            return false;
        }
        assert(replies_view(replies@).last() == replies@[found - 1]@);
        match Session::batched(replies[found - 1].clone()) {
            Ok(_) => false,
            Err(_) => true,
        }
    }

    /// Reads a text that came from the browser: the message, and who is waiting
    /// for it. A text that is no JSON is for nobody.
    pub fn receive(&mut self, text: &str) -> (out: Option<(Delivery, Json)>)
        ensures
            match json_parsed(text@) {
                Ok(msg) => {
                    &&& out matches Some((delivery, json))
                    &&& json@ == msg
                    &&& delivery@ == old(self)@.delivery(msg)
                    &&& final(self)@ == old(self)@.delivered(msg)
                },
                Err(_) => out is None && final(self)@ == old(self)@,
            },
    {
        match Json::parse(text) {
            Ok(msg) => {
                let delivery = self.deliver(&msg);
                Some((delivery, msg))
            },
            Err(_) => None,
        }
    }
}

/// A batch succeeds only where every command of it does.
pub proof fn law_batch_needs_every_answer(replies: Seq<ReplyView>)
    ensures
        batch_results(replies) is Ok <==> forall|i: int|
            0 <= i < replies.len() ==> batch_result(#[trigger] replies[i]) is Ok,
    decreases replies.len(),
{
    if replies.len() > 0 {
        let front = replies.drop_last();
        law_batch_needs_every_answer(front);
        assert(replies.last() == replies[replies.len() - 1]);
        if forall|i: int| 0 <= i < replies.len() ==> batch_result(#[trigger] replies[i]) is Ok {
            assert forall|i: int| 0 <= i < front.len() implies batch_result(
                #[trigger] front[i],
            ) is Ok by {
                assert(batch_result(replies[i]) is Ok);
            }
        }
        if batch_results(replies) is Ok {
            assert forall|i: int| 0 <= i < replies.len() implies batch_result(
                #[trigger] replies[i],
            ) is Ok by {
                if i < front.len() {
                    assert(batch_result(front[i]) is Ok);
                }
            }
        }
    }
}

/// The first failure decides what a batch comes to: answers behind it make no
/// difference.
pub proof fn law_first_failure_decides(replies: Seq<ReplyView>, k: int)
    requires
        0 <= k <= replies.len(),
        batch_results(replies.take(k)) is Err,
    ensures
        batch_results(replies) == batch_results(replies.take(k)),
    decreases replies.len(),
{
    if k < replies.len() {
        assert(replies.drop_last().take(k) =~= replies.take(k));
        law_first_failure_decides(replies.drop_last(), k);
    } else {
        assert(replies.take(k) =~= replies);
    }
}

/// What commands change in a conversation, and what they leave.
pub proof fn lemma_after(s: SessionView, n: nat)
    ensures
        s.after(n).next_id == (s.next_id + n) % 0x1_0000_0000_0000_0000,
        s.after(n).next_token == s.next_token,
        s.after(n).subs == s.subs,
        forall|id: u64| s.pending.contains(id) ==> #[trigger] s.after(n).pending.contains(id),
        forall|i: int| 0 <= i < n ==> s.after(n).pending.contains(#[trigger] s.ids(n)[i]),
    decreases n,
{
    if n > 0 {
        let k = (n - 1) as nat;
        lemma_after(s, k);
        assert forall|i: int| 0 <= i < n implies s.after(n).pending.contains(
            #[trigger] s.ids(n)[i],
        ) by {
            if i < k {
                assert(s.ids(k)[i] == s.ids(n)[i]);
            }
        }
    }
}

/// No two of a row of commands have the same number, as long as the row is no
/// longer than there are numbers.
pub proof fn law_numbers_are_distinct(s: SessionView, n: nat)
    requires
        n <= 0x1_0000_0000_0000_0000,
    ensures
        s.ids(n).no_duplicates(),
{
    assert forall|i: int, j: int| 0 <= i < j < n implies s.ids(n)[i] != s.ids(n)[j] by {
        lemma_after(s, i as nat);
        lemma_after(s, j as nat);
    }
}

/// The numbers of a conversation go up from one.
pub proof fn law_numbers_count_up(n: nat)
    requires
        n < u64::MAX,
    ensures
        SessionView::fresh().after(n).next_id == n + 1,
{
    lemma_after(SessionView::fresh(), n);
}

/// The answer to a command that was sent reaches its sender, and no more than
/// once.
pub proof fn law_answer_is_delivered_once(s: SessionView, n: nat, i: int, msg: JsonView)
    requires
        0 <= i < n,
        message_id(msg) == Some(s.ids(n)[i]),
    ensures
        s.after(n).delivery(msg) == DeliveryView::Reply(s.ids(n)[i]),
        s.after(n).delivered(msg).delivery(msg) == DeliveryView::Nobody,
{
    lemma_after(s, n);
    assert(s.after(n).pending.contains(s.ids(n)[i]));
}

/// A sender goes on waiting while other messages arrive and other commands are
/// sent.
pub proof fn law_sender_keeps_waiting(s: SessionView, id: u64, msg: JsonView, n: nat)
    requires
        s.pending.contains(id),
        message_id(msg) != Some(id),
    ensures
        s.delivered(msg).pending.contains(id),
        s.after(n).pending.contains(id),
{
    lemma_after(s, n);
}

/// A message that carries a number says nothing to subscribers, and one that
/// carries none answers no command.
pub proof fn law_answers_and_events_are_apart(s: SessionView, msg: JsonView)
    ensures
        message_id(msg) is Some ==> s.delivered(msg).subs == s.subs && !(s.delivery(
            msg,
        ) is Event),
        message_id(msg) is None ==> s.delivered(msg).pending == s.pending && !(s.delivery(
            msg,
        ) is Reply),
{
}

/// Who subscribed last to an event is told first, and each subscriber once; the
/// subscribers of other events go on waiting.
pub proof fn law_subscriber_is_told_once(s: SessionView, method: Seq<char>, msg: JsonView)
    requires
        message_id(msg) is None,
        msg.get_str("method"@) == Some(method),
    ensures
        s.subscribed(method).delivery(msg) == DeliveryView::Event(
            seq![s.next_token] + waiting(s.subs, method).reverse(),
        ),
        s.delivered(msg).delivery(msg) == DeliveryView::Event(Seq::empty()),
        forall|other: Seq<char>|
            other != method ==> #[trigger] waiting(s.delivered(msg).subs, other) == waiting(
                s.subs,
                other,
            ),
{
    let more = s.subscribed(method).subs;
    assert(more.drop_last() =~= s.subs);
    assert(waiting(more, method).reverse() =~= seq![s.next_token] + waiting(
        s.subs,
        method,
    ).reverse());
    lemma_others(s.subs, method);
    assert(waiting(others(s.subs, method), method).reverse() =~= Seq::<u64>::empty());
}

proof fn lemma_others(subs: Seq<(Seq<char>, u64)>, method: Seq<char>)
    ensures
        waiting(others(subs, method), method) == Seq::<u64>::empty(),
        forall|other: Seq<char>|
            other != method ==> #[trigger] waiting(others(subs, method), other) == waiting(
                subs,
                other,
            ),
    decreases subs.len(),
{
    if subs.len() > 0 {
        let before = others(subs.drop_last(), method);
        lemma_others(subs.drop_last(), method);
        if subs.last().0 != method {
            assert(before.push(subs.last()).drop_last() =~= before);
        }
        assert forall|other: Seq<char>| other != method implies #[trigger] waiting(
            others(subs, method),
            other,
        ) == waiting(subs, other) by {
            assert(waiting(before, other) == waiting(subs.drop_last(), other));
        }
    }
}

/// The browser reads in a message the command that was put into it.
pub proof fn law_message_reads_back(
    id: u64,
    method: Seq<char>,
    params: JsonView,
    session_id: Option<Seq<char>>,
)
    ensures
        message_id(message(id, method, params, session_id)) == Some(id),
        message(id, method, params, session_id).get_str("method"@) == Some(method),
        message(id, method, params, session_id).get("params"@) == Some(params),
        message(id, method, params, session_id).get_str("sessionId"@) == session_id,
{
    reveal_strlit("id");
    reveal_strlit("method");
    reveal_strlit("params");
    reveal_strlit("sessionId");
    assert("id"@.len() == 2 && "method"@.len() == 6 && "params"@.len() == 6 && "sessionId"@.len()
        == 9);
    assert("method"@[0] == 'm' && "params"@[0] == 'p');
    let e0 = Seq::<(Seq<char>, JsonView)>::empty();
    let e1 = e0.push(("id"@, JsonView::Integer(id as int)));
    let e2 = e1.push(("method"@, JsonView::Text(method)));
    let e3 = e2.push(("params"@, params));
    assert(e1.drop_last() =~= e0);
    assert(e2.drop_last() =~= e1);
    assert(e3.drop_last() =~= e2);
    assert(e3 =~= seq![
        ("id"@, JsonView::Integer(id as int)),
        ("method"@, JsonView::Text(method)),
        ("params"@, params),
    ]);
    assert(members(e3) == members(e2).insert("params"@, params));
    assert(members(e2) == members(e1).insert("method"@, JsonView::Text(method)));
    assert(members(e1) == members(e0).insert("id"@, JsonView::Integer(id as int)));
    match session_id {
        Some(sid) => {
            let e4 = e3.push(("sessionId"@, JsonView::Text(sid)));
            assert(e4.drop_last() =~= e3);
            assert(members(e4) == members(e3).insert("sessionId"@, JsonView::Text(sid)));
        },
        None => {},
    }
}

/// The first command of a batch stands in front of the others.
pub proof fn lemma_batch_front(
    s: SessionView,
    messages: Seq<(Seq<char>, JsonView)>,
    session_id: Option<Seq<char>>,
)
    requires
        messages.len() > 0,
    ensures
        batch_bytes(s, messages, session_id) == text_frame(
            json_text(message(s.next_id, messages[0].0, messages[0].1, session_id)),
        ) + batch_bytes(s.after(1), messages.skip(1), session_id),
    decreases messages.len(),
{
    let first = text_frame(
        json_text(message(s.next_id, messages[0].0, messages[0].1, session_id)),
    );
    reveal_with_fuel(batch_bytes, 2);
    if messages.len() == 1 {
        assert(messages.drop_last() =~= Seq::<(Seq<char>, JsonView)>::empty());
        assert(messages.skip(1) =~= Seq::<(Seq<char>, JsonView)>::empty());
        assert(batch_bytes(s, messages, session_id) =~= first + batch_bytes(
            s.after(1),
            messages.skip(1),
            session_id,
        ));
    } else {
        lemma_batch_front(s, messages.drop_last(), session_id);
        let rest = messages.skip(1);
        assert(messages.drop_last().skip(1) =~= rest.drop_last());
        lemma_after_after(s, 1, (rest.len() - 1) as nat);
        assert(rest.last() == messages.last());
        assert(batch_bytes(s, messages, session_id) =~= first + batch_bytes(
            s.after(1),
            rest,
            session_id,
        ));
    }
}

/// Commands behind commands are so many commands.
pub proof fn lemma_after_after(s: SessionView, m: nat, n: nat)
    ensures
        s.after(m).after(n) == s.after(m + n),
    decreases n,
{
    if n > 0 {
        lemma_after_after(s, m, (n - 1) as nat);
    }
}

/// The browser reads the commands of a batch one after the other: the first frame
/// holds the first command, and the others follow it.
pub proof fn law_batch_reads_back(
    s: SessionView,
    messages: Seq<(Seq<char>, JsonView)>,
    session_id: Option<Seq<char>>,
    rest: Seq<u8>,
)
    requires
        messages.len() > 0,
        batch_bytes(s, messages, session_id).len() <= u64::MAX,
    ensures
        match reading(batch_bytes(s, messages, session_id) + rest) {
            Reading::Payload { size, payload } => {
                &&& bytes_text(payload) == json_text(
                    message(s.next_id, messages[0].0, messages[0].1, session_id),
                )
                &&& (batch_bytes(s, messages, session_id) + rest).skip(size) == batch_bytes(
                    s.after(1),
                    messages.skip(1),
                    session_id,
                ) + rest
            },
            _ => false,
        },
{
    let text = json_text(message(s.next_id, messages[0].0, messages[0].1, session_id));
    let others = batch_bytes(s.after(1), messages.skip(1), session_id);
    lemma_batch_front(s, messages, session_id);
    assert(batch_bytes(s, messages, session_id) + rest =~= text_frame(text) + (others + rest));
    assert(text_frame(text).len() >= vstd::utf8::encode_utf8(text).len());
    law_text_reads_back(text, others + rest);
    assert((text_frame(text) + (others + rest)).skip(text_frame(text).len() as int) =~= others
        + rest);
}

proof fn lemma_one_more(first: (Seq<char>, u64), tail: Seq<(Seq<char>, u64)>, method: Seq<char>)
    ensures
        waiting(seq![first] + tail, method) == (if first.0 == method {
            seq![first.1] + waiting(tail, method)
        } else {
            waiting(tail, method)
        }),
        others(seq![first] + tail, method) == (if first.0 == method {
            others(tail, method)
        } else {
            seq![first] + others(tail, method)
        }),
    decreases tail.len(),
{
    let all = seq![first] + tail;
    if tail.len() == 0 {
        assert(all.drop_last() =~= Seq::<(Seq<char>, u64)>::empty());
        reveal_with_fuel(waiting, 2);
        reveal_with_fuel(others, 2);
        assert(waiting(all, method) =~= (if first.0 == method {
            seq![first.1] + waiting(tail, method)
        } else {
            waiting(tail, method)
        }));
        assert(others(all, method) =~= (if first.0 == method {
            others(tail, method)
        } else {
            seq![first] + others(tail, method)
        }));
    } else {
        lemma_one_more(first, tail.drop_last(), method);
        assert(all.drop_last() =~= seq![first] + tail.drop_last());
        assert(all.last() == tail.last());
        assert(waiting(all, method) =~= (if first.0 == method {
            seq![first.1] + waiting(tail, method)
        } else {
            waiting(tail, method)
        }));
        assert(others(all, method) =~= (if first.0 == method {
            others(tail, method)
        } else {
            seq![first] + others(tail, method)
        }));
    }
}

} // verus!
