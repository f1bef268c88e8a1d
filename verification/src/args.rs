//! The command line.
use vstd::prelude::*;

use crate::error::Error;
use crate::script::opt_string;
use crate::script::parse_viewport;
use crate::script::viewport;
use crate::text::parse_unsigned;
use crate::text::parsed_unsigned;
use crate::text::text_eq;
use crate::text::texts;

verus! {

/// What the program says about itself.
pub const HELP: &'static str = "flashwright 1.0.0 - fast Chromium automation

USAGE:
  flashwright [OPTIONS] <COMMAND> [ARGS]

OPTIONS:
  --chrome <path>   Path to Chrome executable
  --headed          Show browser window
  --timeout <ms>    Wait timeout (default 30000)
  --viewport <WxH>  Set viewport size

COMMANDS:
  serve                    Start persistent daemon
  navigate <url>           Go to URL
  eval <expr>              Evaluate JS, print result
  click <selector>         Click element
  type <selector> <text>   Type text into field
  screenshot [file] [fmt]  Capture screenshot (png or jpeg)
  pdf [file]               Print to PDF
  wait <selector>          Wait for element
  title                    Print page title
  content                  Print page HTML
  script <file>            Run script file
  stop                     Stop the daemon

The first command auto-starts the daemon. Subsequent commands reuse it.";

/// The name and the version of the program.
pub const VERSION: &'static str = "flashwright 1.0.0";

/// The wait timeout where none is given, in milliseconds.
pub const DEFAULT_TIMEOUT: u64 = 30000;

/// What a command line asks for.
#[derive(Debug, PartialEq, Eq)]
pub struct Args {
    /// The path of the browser.
    pub chrome: Option<String>,
    /// Whether the browser shows its window.
    pub headed: bool,
    /// The wait timeout, in milliseconds.
    pub timeout: u64,
    /// The size of the viewport.
    pub viewport: Option<(u32, u32)>,
    /// The command.
    pub command: String,
    /// What follows the command.
    pub cmd_args: Vec<String>,
}

/// What a command line asks for.
pub ghost struct ArgsView {
    pub chrome: Option<Seq<char>>,
    pub headed: bool,
    pub timeout: u64,
    pub viewport: Option<(u32, u32)>,
    pub command: Seq<char>,
    pub cmd_args: Seq<Seq<char>>,
}

impl View for Args {
    type V = ArgsView;

    open spec fn view(&self) -> ArgsView {
        ArgsView {
            chrome: opt_string(self.chrome),
            headed: self.headed,
            timeout: self.timeout,
            viewport: self.viewport,
            command: self.command@,
            cmd_args: texts(self.cmd_args@),
        }
    }
}

/// What to do for a command line.
#[derive(Debug, PartialEq, Eq)]
pub enum Invocation {
    /// Run a command.
    Run(Args),
    /// Tell the help.
    Help,
    /// Tell the version.
    Version,
}

/// What to do for a command line.
pub enum InvocationView {
    Run(ArgsView),
    Help,
    Version,
}

impl View for Invocation {
    type V = InvocationView;

    open spec fn view(&self) -> InvocationView {
        match self {
            Invocation::Run(args) => InvocationView::Run(args@),
            Invocation::Help => InvocationView::Help,
            Invocation::Version => InvocationView::Version,
        }
    }
}

/// The options of a command line, and the words that are no options.
pub ghost struct Options {
    pub chrome: Option<Seq<char>>,
    pub headed: bool,
    pub timeout: u64,
    pub viewport: Option<(u32, u32)>,
    pub words: Seq<Seq<char>>,
}

impl Options {
    /// The options where none is given.
    pub open spec fn defaults() -> Options {
        Options {
            chrome: None,
            headed: false,
            timeout: DEFAULT_TIMEOUT,
            viewport: None,
            words: Seq::empty(),
        }
    }

    /// What to do for these options: the first word is the command.
    pub open spec fn invocation(self) -> Result<InvocationView, Seq<char>> {
        if self.words.len() == 0 {
            Err("no command specified"@)
        } else {
            Ok(
                InvocationView::Run(
                    ArgsView {
                        chrome: self.chrome,
                        headed: self.headed,
                        timeout: self.timeout,
                        viewport: self.viewport,
                        command: self.words[0],
                        cmd_args: self.words.skip(1),
                    },
                ),
            )
        }
    }
}

/// A wait timeout: the default where the text is no number.
pub open spec fn timeout(text: Seq<char>) -> u64 {
    match parsed_unsigned(text, u64::MAX as nat) {
        Some(n) => n as u64,
        None => DEFAULT_TIMEOUT,
    }
}

/// What to do for the rest of a command line, behind these options. An option
/// takes its value from the next word, and is left out where there is none; help
/// and version are told without regard to what follows.
pub open spec fn invocation_from(rest: Seq<Seq<char>>, before: Options) -> Result<
    InvocationView,
    Seq<char>,
>
    decreases rest.len(),
{
    if rest.len() == 0 {
        before.invocation()
    } else if rest[0] == "--chrome"@ {
        if rest.len() == 1 {
            before.invocation()
        } else {
            invocation_from(rest.skip(2), Options { chrome: Some(rest[1]), ..before })
        }
    } else if rest[0] == "--headed"@ {
        invocation_from(rest.skip(1), Options { headed: true, ..before })
    } else if rest[0] == "--timeout"@ {
        if rest.len() == 1 {
            before.invocation()
        } else {
            invocation_from(rest.skip(2), Options { timeout: timeout(rest[1]), ..before })
        }
    } else if rest[0] == "--viewport"@ {
        if rest.len() == 1 {
            before.invocation()
        } else {
            invocation_from(rest.skip(2), Options { viewport: viewport(rest[1]), ..before })
        }
    } else if rest[0] == "--help"@ || rest[0] == "-h"@ {
        Ok(InvocationView::Help)
    } else if rest[0] == "--version"@ || rest[0] == "-V"@ {
        Ok(InvocationView::Version)
    } else {
        invocation_from(rest.skip(1), Options { words: before.words.push(rest[0]), ..before })
    }
}

/// What to do for a command line, which starts with the name of the program.
pub open spec fn invocation(argv: Seq<Seq<char>>) -> Result<InvocationView, Seq<char>> {
    if argv.len() == 0 {
        Options::defaults().invocation()
    } else {
        invocation_from(argv.skip(1), Options::defaults())
    }
}

/// The part of the program that a command runs.
#[derive(Debug, PartialEq, Eq, Clone, Copy)]
pub enum Mode {
    /// The daemon.
    Serve,
    /// A client that stops the daemon.
    Stop,
    /// A client that has the daemon run a script.
    Script,
    /// A client that has the daemon run the command.
    Client,
}

/// The part of the program that a command runs.
pub open spec fn mode_of(command: Seq<char>) -> Mode {
    if command == "serve"@ {
        Mode::Serve
    } else if command == "stop"@ {
        Mode::Stop
    } else if command == "script"@ {
        Mode::Script
    } else {
        Mode::Client
    }
}

/// The command line, behind the name of the program, that starts the daemon.
pub open spec fn daemon_line(headed: bool, chrome: Option<Seq<char>>) -> Seq<Seq<char>> {
    let head = if headed {
        seq!["serve"@, "--headed"@]
    } else {
        seq!["serve"@]
    };
    match chrome {
        Some(path) => head + seq!["--chrome"@, path],
        None => head,
    }
}

/// Reads a command line.
pub fn parse_args(argv: &Vec<String>) -> (out: Result<Invocation, Error>)
    ensures
        match out {
            Ok(found) => invocation(texts(argv@)) == Ok::<InvocationView, Seq<char>>(found@),
            Err(error) => error == Error::NoCommand && invocation(texts(argv@)) == Err::<
                InvocationView,
                Seq<char>,
            >(error.text()),
        },
{
    let ghost all = texts(argv@);
    let mut chrome: Option<String> = None;
    let mut headed = false;
    let mut timeout: u64 = DEFAULT_TIMEOUT;
    let mut size: Option<(u32, u32)> = None;
    let mut words: Vec<String> = Vec::new();
    let n: usize = argv.len();
    let mut i: usize = 1;
    assert(texts(words@) =~= Seq::<Seq<char>>::empty());
    while i < n
        invariant
            n == argv@.len(),
            all == texts(argv@),
            n > 0 ==> 1 <= i <= n && invocation(all) == invocation_from(
                all.skip(i as int),
                Options {
                    chrome: opt_string(chrome),
                    headed,
                    timeout,
                    viewport: size,
                    words: texts(words@),
                },
            ),
            n == 0 ==> texts(words@) == Seq::<Seq<char>>::empty(),
        decreases n - i,
    {
        let word = argv[i].as_str();
        let ghost rest = all.skip(i as int);
        proof {
            assert(rest[0] == word@);
            assert(rest.skip(1) =~= all.skip(i + 1));
            if i + 1 < n {
                assert(rest[1] == argv@[i + 1]@);
                assert(rest.skip(2) =~= all.skip(i + 2));
            } else {
                assert(all.skip(i + 1) =~= Seq::<Seq<char>>::empty());
            }
        }
        i = i + 1;
        if text_eq(word, "--chrome") {
            if i < n {
                chrome = Some(argv[i].clone());
                i = i + 1;
            }
        } else if text_eq(word, "--headed") {
            headed = true;
        } else if text_eq(word, "--timeout") {
            if i < n {
                timeout = match parse_unsigned(argv[i].as_str(), u64::MAX) {
                    Some(ms) => ms,
                    None => DEFAULT_TIMEOUT,
                };
                i = i + 1;
            }
        } else if text_eq(word, "--viewport") {
            if i < n {
                size = parse_viewport(argv[i].as_str());
                i = i + 1;
            }
        } else if text_eq(word, "--help") || text_eq(word, "-h") {
            return Ok(Invocation::Help);
        } else if text_eq(word, "--version") || text_eq(word, "-V") {
            return Ok(Invocation::Version);
        } else {
            let positional = argv[i - 1].clone();
            assert(texts(words@.push(positional)) =~= texts(words@).push(word@));
            words.push(positional);
        }
    }
    if words.len() == 0 {
        return Err(Error::NoCommand);
    }
    let ghost found = words@;
    let command = words.remove(0);
    proof {
        assert(texts(found)[0] == command@);
        assert(texts(words@) =~= texts(found).skip(1));
    }
    Ok(Invocation::Run(Args { chrome, headed, timeout, viewport: size, command, cmd_args: words }))
}

/// The part of the program that a command runs.
pub fn mode(command: &str) -> (out: Mode)
    ensures
        out == mode_of(command@),
{
    if text_eq(command, "serve") {
        Mode::Serve
    } else if text_eq(command, "stop") {
        Mode::Stop
    } else if text_eq(command, "script") {
        Mode::Script
    } else {
        Mode::Client
    }
}

/// The command line, behind the name of the program, that starts the daemon for a
/// client.
pub fn daemon_args(args: &Args) -> (out: Vec<String>)
    ensures
        texts(out@) == daemon_line(args@.headed, args@.chrome),
{
    let mut out: Vec<String> = Vec::new();
    out.push("serve".to_owned());
    if args.headed {
        out.push("--headed".to_owned());
    }
    match &args.chrome {
        Some(path) => {
            out.push("--chrome".to_owned());
            out.push(path.clone());
        },
        None => {},
    }
    assert(texts(out@) =~= daemon_line(args@.headed, args@.chrome));
    out
}

/// Tells whether a word is an option.
pub open spec fn is_option(word: Seq<char>) -> bool {
    ||| word == "--chrome"@
    ||| word == "--headed"@
    ||| word == "--timeout"@
    ||| word == "--viewport"@
    ||| word == "--help"@
    ||| word == "-h"@
    ||| word == "--version"@
    ||| word == "-V"@
}

/// The daemon that a client starts reads the client's own choice of browser and
/// window, and nothing else.
pub proof fn law_daemon_line_reads_back(
    program: Seq<char>,
    headed: bool,
    chrome: Option<Seq<char>>,
)
    ensures
        invocation(seq![program] + daemon_line(headed, chrome)) == Ok::<
            InvocationView,
            Seq<char>,
        >(
            InvocationView::Run(
                ArgsView {
                    chrome,
                    headed,
                    timeout: DEFAULT_TIMEOUT,
                    viewport: None,
                    command: "serve"@,
                    cmd_args: Seq::empty(),
                },
            ),
        ),
{
    reveal_strlit("serve");
    reveal_strlit("--chrome");
    reveal_strlit("--headed");
    reveal_strlit("--timeout");
    reveal_strlit("--viewport");
    reveal_strlit("--help");
    reveal_strlit("-h");
    reveal_strlit("--version");
    reveal_strlit("-V");
    let argv = seq![program] + daemon_line(headed, chrome);
    let rest = argv.skip(1);
    assert(rest =~= daemon_line(headed, chrome));
    assert(rest[0] == "serve"@);
    assert("serve"@[0] == 's' && "--chrome"@[0] == '-' && "--headed"@[0] == '-' && "--timeout"@[0]
        == '-' && "--viewport"@[0] == '-' && "--help"@[0] == '-' && "-h"@[0] == '-'
        && "--version"@[0] == '-' && "-V"@[0] == '-');
    assert("--chrome"@[2] == 'c' && "--headed"@[2] == 'h');
    let none = Options::defaults();
    let one = Options { words: none.words.push("serve"@), ..none };
    assert(invocation(argv) == invocation_from(rest.skip(1), one));
    assert(one.words =~= seq!["serve"@]);
    assert(one.words.skip(1) =~= Seq::<Seq<char>>::empty());
    let two = if headed {
        rest.skip(2)
    } else {
        rest.skip(1)
    };
    let opts = Options { headed, ..one };
    if headed {
        assert(rest.skip(1)[0] == "--headed"@);
        assert(rest.skip(1).skip(1) =~= two);
    }
    assert(invocation(argv) == invocation_from(two, opts));
    match chrome {
        Some(path) => {
            assert(two =~= seq!["--chrome"@, path]);
            assert(two.skip(2) =~= Seq::<Seq<char>>::empty());
            reveal_with_fuel(invocation_from, 2);
        },
        None => {
            assert(two =~= Seq::<Seq<char>>::empty());
        },
    }
}

/// Words that are no options are the command and its arguments, as they stand.
pub proof fn law_words_are_kept(rest: Seq<Seq<char>>, before: Options)
    requires
        forall|i: int| 0 <= i < rest.len() ==> !is_option(#[trigger] rest[i]),
    ensures
        invocation_from(rest, before) == (Options {
            words: before.words + rest,
            ..before
        }).invocation(),
    decreases rest.len(),
{
    if rest.len() == 0 {
        assert(before.words + rest =~= before.words);
    } else {
        assert(!is_option(rest[0]));
        let next = Options { words: before.words.push(rest[0]), ..before };
        assert forall|i: int| 0 <= i < rest.skip(1).len() implies !is_option(
            #[trigger] rest.skip(1)[i],
        ) by {
            assert(!is_option(rest[i + 1]));
        }
        law_words_are_kept(rest.skip(1), next);
        assert(next.words + rest.skip(1) =~= before.words + rest);
    }
}

} // verus!
