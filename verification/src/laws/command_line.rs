//! Promises on the command line.
use vstd::prelude::*;

use crate::args::daemon_line;
use crate::args::invocation;
use crate::args::invocation_from;
use crate::args::mode_of;
use crate::args::timeout;
use crate::args::Args;
use crate::args::ArgsView;
use crate::args::Invocation;
use crate::args::InvocationView;
use crate::args::Mode;
use crate::args::Options;
use crate::args::HELP;
use crate::args::VERSION;
use crate::laws::names::lemma_command_names;
use crate::laws::names::lemma_option_names;
use crate::script::opt_string;
use crate::script::viewport;
use crate::text::parsed_unsigned;
use crate::text::texts;

verus! {

/// A command line starts with the name of the program, which makes no difference,
/// and with nothing asked for.
pub proof fn law_command_line_starts_plain(program: Seq<char>, rest: Seq<Seq<char>>)
    ensures
        invocation(seq![program] + rest) == invocation_from(
            rest,
            Options {
                chrome: None,
                headed: false,
                timeout: 30000,
                viewport: None,
                words: Seq::empty(),
            },
        ),
        invocation(Seq::empty()) == Err::<InvocationView, Seq<char>>("no command specified"@),
{
    assert((seq![program] + rest).skip(1) =~= rest);
}

/// At the end of a command line the first word is the command and the others are
/// its arguments, and every option is what it was last set to.
pub proof fn law_command_line_comes_to_this(o: Options)
    ensures
        invocation_from(Seq::empty(), o) == (if o.words.len() == 0 {
            Err("no command specified"@)
        } else {
            Ok(
                InvocationView::Run(
                    ArgsView {
                        chrome: o.chrome,
                        headed: o.headed,
                        timeout: o.timeout,
                        viewport: o.viewport,
                        command: o.words[0],
                        cmd_args: o.words.skip(1),
                    },
                ),
            )
        }),
{
}

/// What stands behind one word.
pub proof fn lemma_one_word(word: Seq<char>, rest: Seq<Seq<char>>)
    ensures
        (seq![word] + rest)[0] == word,
        (seq![word] + rest).skip(1) == rest,
{
    assert((seq![word] + rest).skip(1) =~= rest);
}

proof fn lemma_two_words(word: Seq<char>, value: Seq<char>, rest: Seq<Seq<char>>)
    ensures
        (seq![word, value] + rest)[0] == word,
        (seq![word, value] + rest)[1] == value,
        (seq![word, value] + rest).skip(2) == rest,
{
    assert((seq![word, value] + rest).skip(2) =~= rest);
}

/// Each option sets what it is named after from the word behind it, and nothing
/// else; without such a word it sets nothing.
pub proof fn law_options_set_what_they_name(value: Seq<char>, rest: Seq<Seq<char>>, o: Options)
    ensures
        invocation_from(seq!["--chrome"@, value] + rest, o) == invocation_from(
            rest,
            Options { chrome: Some(value), ..o },
        ),
        invocation_from(seq!["--headed"@] + rest, o) == invocation_from(
            rest,
            Options { headed: true, ..o },
        ),
        invocation_from(seq!["--timeout"@, value] + rest, o) == invocation_from(
            rest,
            Options {
                timeout: match parsed_unsigned(value, u64::MAX as nat) {
                    Some(ms) => ms as u64,
                    None => 30000,
                },
                ..o
            },
        ),
        invocation_from(seq!["--viewport"@, value] + rest, o) == invocation_from(
            rest,
            Options { viewport: viewport(value), ..o },
        ),
        invocation_from(seq!["--chrome"@], o) == invocation_from(Seq::empty(), o),
        invocation_from(seq!["--timeout"@], o) == invocation_from(Seq::empty(), o),
        invocation_from(seq!["--viewport"@], o) == invocation_from(Seq::empty(), o),
        invocation_from(seq!["--help"@] + rest, o) == Ok::<InvocationView, Seq<char>>(
            InvocationView::Help,
        ),
        invocation_from(seq!["-h"@] + rest, o) == Ok::<InvocationView, Seq<char>>(
            InvocationView::Help,
        ),
        invocation_from(seq!["--version"@] + rest, o) == Ok::<InvocationView, Seq<char>>(
            InvocationView::Version,
        ),
        invocation_from(seq!["-V"@] + rest, o) == Ok::<InvocationView, Seq<char>>(
            InvocationView::Version,
        ),
{
    lemma_option_names();
    lemma_two_words("--chrome"@, value, rest);
    lemma_two_words("--timeout"@, value, rest);
    lemma_two_words("--viewport"@, value, rest);
    lemma_one_word("--headed"@, rest);
    lemma_one_word("--help"@, rest);
    lemma_one_word("-h"@, rest);
    lemma_one_word("--version"@, rest);
    lemma_one_word("-V"@, rest);
}

/// A word that is no option is kept as it stands, behind those before it.
pub proof fn law_other_words_are_kept(word: Seq<char>, rest: Seq<Seq<char>>, o: Options)
    requires
        word != "--chrome"@,
        word != "--headed"@,
        word != "--timeout"@,
        word != "--viewport"@,
        word != "--help"@,
        word != "-h"@,
        word != "--version"@,
        word != "-V"@,
    ensures
        invocation_from(seq![word] + rest, o) == invocation_from(
            rest,
            Options { words: o.words.push(word), ..o },
        ),
{
    assert((seq![word] + rest).skip(1) =~= rest);
    assert((seq![word] + rest)[0] == word);
}

/// A timeout is the number that is given, and thirty seconds where it is none.
pub proof fn law_timeout_is_what_was_given(text: Seq<char>)
    ensures
        timeout(text) == match parsed_unsigned(text, u64::MAX as nat) {
            Some(ms) => ms as int,
            None => 30000,
        },
{
}

/// The command alone decides which part of the program runs.
pub proof fn law_command_decides_the_part(command: Seq<char>)
    ensures
        mode_of(command) == Mode::Serve <==> command == "serve"@,
        mode_of(command) == Mode::Stop <==> command == "stop"@,
        mode_of(command) == Mode::Script <==> command == "script"@,
{
    lemma_command_names();
}

/// The command line of a daemon starts with its command, shows a window only where
/// that was asked for, and names the browser that was asked for.
pub proof fn law_daemon_line_is_this(headed: bool, chrome: Option<Seq<char>>)
    ensures
        daemon_line(headed, chrome)[0] == "serve"@,
        headed <==> daemon_line(headed, chrome).len() >= 2 && daemon_line(headed, chrome)[1]
            == "--headed"@,
        match chrome {
            Some(path) => {
                let n = daemon_line(headed, chrome).len();
                &&& n >= 3
                &&& daemon_line(headed, chrome)[n - 2] == "--chrome"@
                &&& daemon_line(headed, chrome)[n - 1] == path
            },
            None => daemon_line(headed, chrome).len() <= 2,
        },
{
    lemma_option_names();
}

/// The help names every option and every command, and what each of them does.
pub proof fn law_help_is_this()
    ensures
        HELP@ == "flashwright 1.0.0 - fast Chromium automation

USAGE:
  flashwright [OPTIONS] <COMMAND> [ARGS]

OPTIONS:
  --chrome <path>   Path to Chrome executable
  --headed          Show browser window
  --timeout <ms>    Wait timeout (default 30000)
  --viewport <WxH>  Set viewport size

COMMANDS:
  serve                    Start persistent daemon
  navigate <url>           Go to URL
  eval <expr>              Evaluate JS, print result
  click <selector>         Click element
  type <selector> <text>   Type text into field
  screenshot [file] [fmt]  Capture screenshot (png or jpeg)
  pdf [file]               Print to PDF
  wait <selector>          Wait for element
  title                    Print page title
  content                  Print page HTML
  script <file>            Run script file
  stop                     Stop the daemon

The first command auto-starts the daemon. Subsequent commands reuse it."@,
        VERSION@ == "flashwright 1.0.0"@,
{
}

/// What was read of a command line is seen field by field.
pub proof fn law_command_line_is_seen_as_it_is(args: Args)
    ensures
        Invocation::Run(args)@ == InvocationView::Run(args@),
        Invocation::Help@ == InvocationView::Help,
        Invocation::Version@ == InvocationView::Version,
        args@.chrome is Some <==> args.chrome is Some,
        args.chrome matches Some(path) ==> args@.chrome == Some(path@),
        args@.headed == args.headed,
        args@.timeout == args.timeout,
        args@.viewport == args.viewport,
        args@.command == args.command@,
        args@.cmd_args.len() == args.cmd_args@.len(),
        forall|i: int|
            0 <= i < args.cmd_args@.len() ==> #[trigger] args@.cmd_args[i] == args.cmd_args@[i]@,
{
}

/// A row of strings is seen string by string, and an optional one as it is.
pub proof fn law_strings_are_seen_as_they_are(row: Seq<String>, i: int, s: Option<String>)
    ensures
        texts(row).len() == row.len(),
        0 <= i < row.len() ==> texts(row)[i] == row[i]@,
        opt_string(s) == match s {
            Some(text) => Some(text@),
            None => None,
        },
{
}

} // verus!
