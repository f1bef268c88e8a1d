//! What a client asks of the daemon.
use vstd::prelude::*;

use crate::args::ArgsView;
use crate::args::DEFAULT_TIMEOUT;
use crate::client::command_request;
use crate::client::member_texts;
use crate::client::only_texts;
use crate::client::script_request_of;
use crate::client::stop_request_of;
use crate::client::text_list;
use crate::client::text_or;
use crate::client::texts_in;
use crate::client::viewport_json;
use crate::error::Error;
use crate::json::items_view;
use crate::json::members;
use crate::json::Json;
use crate::json::JsonView;
use crate::script::argument;
use crate::script::opt_string;
use crate::script::script_action;
use crate::script::Action;
use crate::script::ActionView;
use crate::text::text_eq;
use crate::text::texts;

verus! {

/// What a client wants.
#[derive(Debug, PartialEq, Eq)]
pub enum Wanted {
    /// That the daemon stops.
    Stop,
    /// That a script is run, line by line.
    Script(Vec<String>),
    /// That something is done with the page.
    Page(Action),
}

/// What a client wants.
pub enum WantedView {
    Stop,
    Script(Seq<Seq<char>>),
    Page(ActionView),
}

impl View for Wanted {
    type V = WantedView;

    open spec fn view(&self) -> WantedView {
        match self {
            Wanted::Stop => WantedView::Stop,
            Wanted::Script(lines) => WantedView::Script(texts(lines@)),
            Wanted::Page(action) => WantedView::Page(action@),
        }
    }
}

/// The command of a request: empty where it names none.
pub open spec fn request_cmd(req: JsonView) -> Seq<char> {
    text_or(req.get_str("cmd"@), Seq::empty())
}

/// The wait timeout of a request.
pub open spec fn request_timeout(req: JsonView) -> u64 {
    match req.get("timeout"@) {
        Some(timeout) => match timeout.as_u64() {
            Some(ms) => ms,
            None => DEFAULT_TIMEOUT,
        },
        None => DEFAULT_TIMEOUT,
    }
}

/// The list in a member of a request.
pub open spec fn request_list(req: JsonView, key: Seq<char>) -> Option<Seq<JsonView>> {
    match req.get(key) {
        Some(member) => member.as_array(),
        None => None,
    }
}

/// The text at a place of a list, where there is one.
pub open spec fn text_at(list: Option<Seq<JsonView>>, i: int) -> Option<Seq<char>> {
    match list {
        Some(items) => if i < items.len() {
            items[i].as_str()
        } else {
            None
        },
        None => None,
    }
}

/// The argument at a place: empty where there is none.
pub open spec fn argument_text(list: Option<Seq<JsonView>>, i: int) -> Seq<char> {
    text_or(text_at(list, i), Seq::empty())
}

/// The texts of a list with a blank between two of them; what is no text counts as
/// an empty one.
pub open spec fn with_blanks(items: Seq<JsonView>) -> Seq<char>
    decreases items.len(),
{
    if items.len() == 0 {
        Seq::empty()
    } else {
        let last = text_or(items.last().as_str(), Seq::empty());
        if items.len() == 1 {
            last
        } else {
            with_blanks(items.drop_last()).push(' ') + last
        }
    }
}

/// A length in pixels: the remainder modulo two to the thirty-second, or a default
/// where there is no number.
pub open spec fn pixels(json: JsonView, default: u32) -> u32 {
    match json.as_u64() {
        Some(n) => (n % 0x1_0000_0000) as u32,
        None => default,
    }
}

/// Tells whether a request asks for a viewport but gives a list that is too short
/// to hold one.
pub open spec fn short_viewport(req: JsonView) -> bool {
    &&& request_cmd(req) == "viewport"@
    &&& request_list(req, "viewport"@) matches Some(size)
    &&& size.len() < 2
}

/// The size of the viewport that a request asks for.
pub open spec fn asked_size(req: JsonView) -> Option<(u32, u32)> {
    match request_list(req, "viewport"@) {
        Some(size) => if size.len() >= 2 {
            Some((pixels(size[0], 1280), pixels(size[1], 720)))
        } else {
            None
        },
        None => None,
    }
}

/// What a request asks for.
pub open spec fn wanted(req: JsonView) -> Result<WantedView, Seq<char>> {
    let cmd = request_cmd(req);
    let args = request_list(req, "args"@);
    if cmd == "stop"@ {
        Ok(WantedView::Stop)
    } else if cmd == "navigate"@ {
        Ok(WantedView::Page(ActionView::Navigate(argument_text(args, 0))))
    } else if cmd == "eval"@ {
        Ok(
            WantedView::Page(
                ActionView::Eval(
                    match args {
                        Some(items) => with_blanks(items),
                        None => Seq::empty(),
                    },
                ),
            ),
        )
    } else if cmd == "click"@ {
        Ok(WantedView::Page(ActionView::Click(argument_text(args, 0))))
    } else if cmd == "type"@ {
        Ok(WantedView::Page(ActionView::Type(argument_text(args, 0), argument_text(args, 1))))
    } else if cmd == "screenshot"@ {
        Ok(
            WantedView::Page(
                ActionView::Screenshot(text_at(args, 0), text_or(text_at(args, 1), "png"@)),
            ),
        )
    } else if cmd == "pdf"@ {
        Ok(WantedView::Page(ActionView::Pdf(text_at(args, 0))))
    } else if cmd == "wait"@ {
        Ok(WantedView::Page(ActionView::Wait(argument_text(args, 0))))
    } else if cmd == "title"@ {
        Ok(WantedView::Page(ActionView::Title))
    } else if cmd == "content"@ {
        Ok(WantedView::Page(ActionView::Content))
    } else if cmd == "viewport"@ {
        match asked_size(req) {
            Some((w, h)) => Ok(WantedView::Page(ActionView::Viewport(w, h))),
            None => Err("no viewport specified"@),
        }
    } else if cmd == "script"@ {
        Ok(WantedView::Script(member_texts(req, "lines"@)))
    } else {
        Err("unknown command: "@ + cmd)
    }
}

/// The wait timeout of a request.
pub fn timeout_of(req: &Json) -> (out: u64)
    ensures
        out == request_timeout(req@),
{
    match req.get("timeout") {
        Some(timeout) => match timeout.as_u64() {
            Some(ms) => ms,
            None => DEFAULT_TIMEOUT,
        },
        None => DEFAULT_TIMEOUT,
    }
}

fn list_in<'a>(req: &'a Json, key: &str) -> (out: Option<&'a Vec<Json>>)
    ensures
        match out {
            Some(items) => request_list(req@, key@) == Some(items_view(items@)),
            None => request_list(req@, key@) is None,
        },
{
    match req.get(key) {
        Some(member) => member.as_array(),
        None => None,
    }
}

/// The list that a parameter stands for.
pub open spec fn opt_list(list: Option<&Vec<Json>>) -> Option<Seq<JsonView>> {
    match list {
        Some(items) => Some(items_view(items@)),
        None => None,
    }
}

fn opt_arg(list: Option<&Vec<Json>>, i: usize) -> (out: Option<String>)
    ensures
        opt_string(out) == text_at(opt_list(list), i as int),
{
    match list {
        Some(items) => if i < items.len() {
            assert(items_view(items@)[i as int] == items@[i as int]@);
            match items[i].as_str() {
                Some(s) => Some(s.to_owned()),
                None => None,
            }
        } else {
            None
        },
        None => None,
    }
}

/// The argument at a place: empty where there is none.
pub fn get_arg(list: Option<&Vec<Json>>, i: usize) -> (out: String)
    ensures
        out@ == argument_text(opt_list(list), i as int),
{
    match opt_arg(list, i) {
        Some(s) => s,
        None => String::new(),
    }
}

fn join_texts(items: &Vec<Json>) -> (out: String)
    ensures
        out@ == with_blanks(items_view(items@)),
{
    let ghost all = items_view(items@);
    let mut out = String::new();
    let n: usize = items.len();
    let mut i: usize = 0;
    assert(out@ =~= with_blanks(all.take(0)));
    while i < n
        invariant
            n == items@.len(),
            i <= n,
            all == items_view(items@),
            out@ == with_blanks(all.take(i as int)),
        decreases n - i,
    {
        proof {
            assert(all.take(i + 1).drop_last() =~= all.take(i as int));
            assert(all.take(i + 1).last() == items@[i as int]@);
        }
        let ghost before = out@;
        if i > 0 {
            out.push(' ');
        }
        let ghost mid = out@;
        match items[i].as_str() {
            Some(s) => {
                out.append(s);
                assert(i == 0 ==> out@ =~= s@);
            },
            None => {
                assert(mid =~= mid + Seq::<char>::empty());
            },
        }
        i = i + 1;
    }
    assert(all.take(n as int) =~= all);
    out
}

/// Tells whether a request can be read: one for a viewport has to give both the
/// width and the height where it gives a list at all.
pub fn readable(req: &Json) -> (out: bool)
    ensures
        out == !short_viewport(req@),
{
    proof {
        reveal_strlit("viewport");
        assert("viewport"@.len() == 8);
    }
    let cmd = match req.get_str("cmd") {
        Some(cmd) => cmd,
        None => return true,
    };
    if !text_eq(cmd, "viewport") {
        return true;
    }
    match list_in(req, "viewport") {
        Some(size) => size.len() >= 2,
        None => true,
    }
}

fn pixels_of(json: &Json, default: u32) -> (out: u32)
    ensures
        out == pixels(json@, default),
{
    match json.as_u64() {
        Some(n) => (n % 0x1_0000_0000) as u32,
        None => default,
    }
}

/// The size of the viewport that a request asks for.
pub fn size_asked(req: &Json) -> (out: Option<(u32, u32)>)
    ensures
        out == asked_size(req@),
{
    match list_in(req, "viewport") {
        Some(size) => if size.len() >= 2 {
            assert(items_view(size@)[0] == size@[0]@ && items_view(size@)[1] == size@[1]@);
            Some((pixels_of(&size[0], 1280), pixels_of(&size[1], 720)))
        } else {
            None
        },
        None => None,
    }
}

/// Reads a request.
pub fn read_request(req: &Json) -> (out: Result<Wanted, Error>)
    requires
        !short_viewport(req@),
    ensures
        match out {
            Ok(found) => wanted(req@) == Ok::<WantedView, Seq<char>>(found@),
            Err(error) => wanted(req@) == Err::<WantedView, Seq<char>>(error.text()),
        },
{
    let cmd = match req.get_str("cmd") {
        Some(cmd) => cmd.to_owned(),
        None => String::new(),
    };
    assert(cmd@ == request_cmd(req@));
    let cmd = cmd.as_str();
    let args = list_in(req, "args");
    if text_eq(cmd, "stop") {
        Ok(Wanted::Stop)
    } else if text_eq(cmd, "navigate") {
        Ok(Wanted::Page(Action::Navigate(get_arg(args, 0))))
    } else if text_eq(cmd, "eval") {
        let expr = match args {
            Some(items) => join_texts(items),
            None => String::new(),
        };
        Ok(Wanted::Page(Action::Eval(expr)))
    } else if text_eq(cmd, "click") {
        Ok(Wanted::Page(Action::Click(get_arg(args, 0))))
    } else if text_eq(cmd, "type") {
        Ok(Wanted::Page(Action::Type(get_arg(args, 0), get_arg(args, 1))))
    } else if text_eq(cmd, "screenshot") {
        let format = match opt_arg(args, 1) {
            Some(format) => format,
            None => "png".to_owned(),
        };
        Ok(Wanted::Page(Action::Screenshot(opt_arg(args, 0), format)))
    } else if text_eq(cmd, "pdf") {
        Ok(Wanted::Page(Action::Pdf(opt_arg(args, 0))))
    } else if text_eq(cmd, "wait") {
        Ok(Wanted::Page(Action::Wait(get_arg(args, 0))))
    } else if text_eq(cmd, "title") {
        Ok(Wanted::Page(Action::Title))
    } else if text_eq(cmd, "content") {
        Ok(Wanted::Page(Action::Content))
    } else if text_eq(cmd, "viewport") {
        match size_asked(req) {
            Some((w, h)) => Ok(Wanted::Page(Action::Viewport(w, h))),
            None => Err(Error::NoViewport),
        }
    } else if text_eq(cmd, "script") {
        Ok(Wanted::Script(texts_in(req, "lines")))
    } else {
        Err(Error::UnknownCommand(cmd.to_owned()))
    }
}

/// All of a list of texts are texts.
pub proof fn lemma_only_texts(items: Seq<Seq<char>>)
    ensures
        only_texts(items.map_values(|s: Seq<char>| JsonView::Text(s))) == items,
    decreases items.len(),
{
    let list = items.map_values(|s: Seq<char>| JsonView::Text(s));
    if items.len() == 0 {
        assert(only_texts(list) =~= items);
    } else {
        lemma_only_texts(items.drop_last());
        assert(list.drop_last() =~= items.drop_last().map_values(
            |s: Seq<char>| JsonView::Text(s),
        ));
        assert(only_texts(list) =~= items);
    }
}

proof fn lemma_command_members(args: ArgsView)
    ensures
        command_request(args).get("cmd"@) == Some(JsonView::Text(args.command)),
        command_request(args).get("args"@) == Some(text_list(args.cmd_args)),
        command_request(args).get("timeout"@) == Some(JsonView::Integer(args.timeout as int)),
        command_request(args).get("viewport"@) == Some(viewport_json(args.viewport)),
{
    reveal_strlit("cmd");
    reveal_strlit("args");
    reveal_strlit("timeout");
    reveal_strlit("viewport");
    assert("cmd"@.len() == 3 && "args"@.len() == 4 && "timeout"@.len() == 7 && "viewport"@.len() == 8);
    let e0 = Seq::<(Seq<char>, JsonView)>::empty();
    let e1 = e0.push(("cmd"@, JsonView::Text(args.command)));
    let e2 = e1.push(("args"@, text_list(args.cmd_args)));
    let e3 = e2.push(("timeout"@, JsonView::Integer(args.timeout as int)));
    let e4 = e3.push(("viewport"@, viewport_json(args.viewport)));
    assert(e1.drop_last() =~= e0);
    assert(e2.drop_last() =~= e1);
    assert(e3.drop_last() =~= e2);
    assert(e4.drop_last() =~= e3);
    assert(e4 =~= seq![
        ("cmd"@, JsonView::Text(args.command)),
        ("args"@, text_list(args.cmd_args)),
        ("timeout"@, JsonView::Integer(args.timeout as int)),
        ("viewport"@, viewport_json(args.viewport)),
    ]);
    assert(members(e4) == members(e3).insert("viewport"@, viewport_json(args.viewport)));
    assert(members(e3) == members(e2).insert("timeout"@, JsonView::Integer(args.timeout as int)));
    assert(members(e2) == members(e1).insert("args"@, text_list(args.cmd_args)));
    assert(members(e1) == members(e0).insert("cmd"@, JsonView::Text(args.command)));
}

/// The daemon reads in a client's request what the client put into it.
pub proof fn law_request_reads_back(args: ArgsView)
    ensures
        request_cmd(command_request(args)) == args.command,
        request_timeout(command_request(args)) == args.timeout,
        forall|i: int|
            0 <= i ==> #[trigger] text_at(request_list(command_request(args), "args"@), i)
                == argument(args.cmd_args, i),
        !short_viewport(command_request(args)),
        asked_size(command_request(args)) == args.viewport,
        args.command == "viewport"@ ==> wanted(command_request(args)) == match args.viewport {
            Some((w, h)) => Ok(WantedView::Page(ActionView::Viewport(w, h))),
            None => Err("no viewport specified"@),
        },
{
    lemma_command_members(args);
    lemma_size_reads_back(args.viewport);
    if args.command == "viewport"@ {
        lemma_command_names();
    }
}

proof fn lemma_size_reads_back(viewport: Option<(u32, u32)>)
    ensures
        match viewport {
            Some((w, h)) => match viewport_json(viewport).as_array() {
                Some(size) => size.len() == 2 && pixels(size[0], 1280) == w && pixels(size[1], 720)
                    == h,
                None => false,
            },
            None => viewport_json(viewport).as_array() is None,
        },
{
    match viewport {
        Some((w, h)) => {
            let size = viewport_json(viewport)->List_0;
            assert(size[0] == JsonView::Integer(w as int));
            assert(size[1] == JsonView::Integer(h as int));
        },
        None => {},
    }
}

proof fn lemma_command_names()
    ensures
        "viewport"@ != "stop"@,
        "viewport"@ != "navigate"@,
        "viewport"@ != "eval"@,
        "viewport"@ != "click"@,
        "viewport"@ != "type"@,
        "viewport"@ != "screenshot"@,
        "viewport"@ != "pdf"@,
        "viewport"@ != "wait"@,
        "viewport"@ != "title"@,
        "viewport"@ != "content"@,
        "script"@ != "stop"@,
        "script"@ != "navigate"@,
        "script"@ != "eval"@,
        "script"@ != "click"@,
        "script"@ != "type"@,
        "script"@ != "screenshot"@,
        "script"@ != "pdf"@,
        "script"@ != "wait"@,
        "script"@ != "title"@,
        "script"@ != "content"@,
        "script"@ != "viewport"@,
{
    reveal_strlit("viewport");
    reveal_strlit("script");
    reveal_strlit("stop");
    reveal_strlit("navigate");
    reveal_strlit("eval");
    reveal_strlit("click");
    reveal_strlit("type");
    reveal_strlit("screenshot");
    reveal_strlit("pdf");
    reveal_strlit("wait");
    reveal_strlit("title");
    reveal_strlit("content");
    assert("viewport"@.len() == 8 && "script"@.len() == 6 && "stop"@.len() == 4 && "navigate"@.len() == 8 && "eval"@.len() == 4 && "click"@.len() == 5 && "type"@.len() == 4 && "screenshot"@.len() == 10 && "pdf"@.len() == 3 && "wait"@.len() == 4 && "title"@.len() == 5 && "content"@.len() == 7);
    assert("viewport"@[0] == 'v' && "navigate"@[0] == 'n');
}

/// The daemon runs the lines that a client sends, all of them and in their order,
/// with the client's timeout and viewport.
pub proof fn law_script_reads_back(
    lines: Seq<Seq<char>>,
    timeout: u64,
    viewport: Option<(u32, u32)>,
)
    ensures
        wanted(script_request_of(lines, timeout, viewport)) == Ok::<WantedView, Seq<char>>(
            WantedView::Script(lines),
        ),
        request_timeout(script_request_of(lines, timeout, viewport)) == timeout,
        asked_size(script_request_of(lines, timeout, viewport)) == viewport,
{
    reveal_strlit("cmd");
    reveal_strlit("lines");
    reveal_strlit("timeout");
    reveal_strlit("viewport");
    assert("cmd"@.len() == 3 && "lines"@.len() == 5 && "timeout"@.len() == 7 && "viewport"@.len()
        == 8);
    lemma_command_names();
    lemma_only_texts(lines);
    let e0 = Seq::<(Seq<char>, JsonView)>::empty();
    let e1 = e0.push(("cmd"@, JsonView::Text("script"@)));
    let e2 = e1.push(("lines"@, text_list(lines)));
    let e3 = e2.push(("timeout"@, JsonView::Integer(timeout as int)));
    assert(e1.drop_last() =~= e0);
    assert(e2.drop_last() =~= e1);
    assert(e3.drop_last() =~= e2);
    assert(e3 =~= seq![
        ("cmd"@, JsonView::Text("script"@)),
        ("lines"@, text_list(lines)),
        ("timeout"@, JsonView::Integer(timeout as int)),
    ]);
    assert(members(e3) == members(e2).insert("timeout"@, JsonView::Integer(timeout as int)));
    assert(members(e2) == members(e1).insert("lines"@, text_list(lines)));
    assert(members(e1) == members(e0).insert("cmd"@, JsonView::Text("script"@)));
    let e4 = e3.push(("viewport"@, viewport_json(viewport)));
    assert(e4.drop_last() =~= e3);
    assert(members(e4) == members(e3).insert("viewport"@, viewport_json(viewport)));
    lemma_size_reads_back(viewport);
}

/// The daemon stops when a client asks for it.
pub proof fn law_stop_reads_back()
    ensures
        wanted(stop_request_of()) == Ok::<WantedView, Seq<char>>(WantedView::Stop),
{
    let e0 = Seq::<(Seq<char>, JsonView)>::empty();
    let e1 = e0.push(("cmd"@, JsonView::Text("stop"@)));
    assert(e1.drop_last() =~= e0);
    assert(members(e1) == members(e0).insert("cmd"@, JsonView::Text("stop"@)));
}

/// Tells whether a command with arguments can stand on the command line as well as
/// in a script: in a script arguments must not be left out, and an expression is
/// one word.
pub open spec fn in_both(command: Seq<char>, args: Seq<Seq<char>>) -> bool {
    ||| (command == "navigate"@ || command == "click"@ || command == "wait"@) && args.len() >= 1
    ||| command == "type"@ && args.len() >= 2
    ||| command == "eval"@ && args.len() == 1
    ||| command == "screenshot"@
    ||| command == "pdf"@
    ||| command == "title"@
    ||| command == "content"@
}

/// A command asks for the same on the command line as in a line of a script.
pub proof fn law_commands_mean_the_same(args: ArgsView)
    requires
        in_both(args.command, args.cmd_args),
    ensures
        match script_action(seq![args.command] + args.cmd_args) {
            Ok(action) => wanted(command_request(args)) == Ok::<WantedView, Seq<char>>(
                WantedView::Page(action),
            ),
            Err(_) => false,
        },
{
    reveal_strlit("stop");
    reveal_strlit("navigate");
    reveal_strlit("goto");
    reveal_strlit("eval");
    reveal_strlit("click");
    reveal_strlit("type");
    reveal_strlit("screenshot");
    reveal_strlit("pdf");
    reveal_strlit("wait");
    reveal_strlit("title");
    reveal_strlit("content");
    assert("stop"@.len() == 4 && "navigate"@.len() == 8 && "goto"@.len() == 4 && "eval"@.len() == 4 && "click"@.len() == 5 && "type"@.len() == 4 && "screenshot"@.len() == 10 && "pdf"@.len() == 3 && "wait"@.len() == 4 && "title"@.len() == 5 && "content"@.len() == 7);
    assert("stop"@[0] == 's' && "goto"@[0] == 'g' && "eval"@[0] == 'e' && "type"@[0] == 't'
        && "wait"@[0] == 'w' && "click"@[0] == 'c' && "title"@[0] == 't');
    lemma_command_members(args);
    law_request_reads_back(args);
    let words = seq![args.command] + args.cmd_args;
    assert(words.skip(1) =~= args.cmd_args);
    assert(words[0] == args.command);
    let list = request_list(command_request(args), "args"@);
    assert(text_at(list, 0) == argument(args.cmd_args, 0));
    assert(text_at(list, 1) == argument(args.cmd_args, 1));
    if args.command == "eval"@ {
        let items = list->Some_0;
        assert(items.last() == JsonView::Text(args.cmd_args[0]));
    }
}

} // verus!
