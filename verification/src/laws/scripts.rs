//! Promises on scripts: their lines, the words of a line, what a line asks for.
use vstd::prelude::*;

use crate::laws::command_line::lemma_one_word;
use crate::laws::names::lemma_command_names;
use crate::script::argument;
use crate::script::is_blank;
use crate::script::is_quote;
use crate::script::lemma_bare;
use crate::script::meaningful;
use crate::script::quotation;
use crate::script::script_action;
use crate::script::viewport;
use crate::script::words;
use crate::script::words_from;
use crate::script::ActionView;
use crate::text::decimal;
use crate::text::lemma_first_of_is;
use crate::text::parsed_unsigned;
use crate::text::trim;

verus! {

/// Tells whether a line says something: it is neither empty nor a comment.
pub open spec fn says_something(line: Seq<char>) -> bool {
    line.len() > 0 && line[0] != '#'
}

/// The lines of a script are the lines of its file, trimmed, without those that are
/// empty or start with a hash: each as often as it stands there, and in the same
/// order.
pub proof fn law_script_keeps_its_lines(all: Seq<Seq<char>>)
    ensures
        meaningful(all) == all.map_values(|l: Seq<char>| trim(l)).filter(
            |l: Seq<char>| says_something(l),
        ),
    decreases all.len(),
{
    reveal(Seq::filter);
    let trimmed = all.map_values(|l: Seq<char>| trim(l));
    if all.len() > 0 {
        law_script_keeps_its_lines(all.drop_last());
        assert(trimmed.drop_last() =~= all.drop_last().map_values(|l: Seq<char>| trim(l)));
        assert(trimmed.last() == trim(all.last()));
    }
}

/// A script of two halves has the lines of the first half and then those of the
/// second.
pub proof fn law_script_lines_add_up(a: Seq<Seq<char>>, b: Seq<Seq<char>>)
    ensures
        meaningful(a + b) == meaningful(a) + meaningful(b),
    decreases b.len(),
{
    if b.len() == 0 {
        assert(a + b =~= a);
        assert(meaningful(a) + meaningful(b) =~= meaningful(a));
    } else {
        law_script_lines_add_up(a, b.drop_last());
        assert((a + b).drop_last() =~= a + b.drop_last());
        assert((a + b).last() == b.last());
        let before = meaningful(a) + meaningful(b.drop_last());
        assert(before.push(trim(b.last())) =~= meaningful(a) + meaningful(b.drop_last()).push(
            trim(b.last()),
        ));
    }
}

/// What stands in a quotation: characters, each as it stands or behind a backslash.
pub open spec fn written(pieces: Seq<(bool, char)>) -> Seq<char>
    decreases pieces.len(),
{
    if pieces.len() == 0 {
        Seq::empty()
    } else if pieces[0].0 {
        seq!['\\', pieces[0].1] + written(pieces.skip(1))
    } else {
        seq![pieces[0].1] + written(pieces.skip(1))
    }
}

/// What a quotation of these characters says.
pub open spec fn said(pieces: Seq<(bool, char)>) -> Seq<char> {
    pieces.map_values(|p: (bool, char)| p.1)
}

/// Tells whether these characters can stand in a quotation: a quote and a backslash
/// only behind a backslash.
pub open spec fn quotable(pieces: Seq<(bool, char)>, quote: char) -> bool {
    forall|i: int|
        0 <= i < pieces.len() ==> (#[trigger] pieces[i]).0 || (pieces[i].1 != quote && pieces[i].1
            != '\\')
}

proof fn lemma_quotation(pieces: Seq<(bool, char)>, quote: char, rest: Seq<char>)
    requires
        quotable(pieces, quote),
        quote != '\\',
    ensures
        quotation(written(pieces) + seq![quote] + rest, quote) == (said(pieces), rest),
        quotation(written(pieces), quote) == (said(pieces), Seq::<char>::empty()),
        quotation(written(pieces) + seq!['\\'], quote) == (said(pieces), Seq::<char>::empty()),
    decreases pieces.len(),
{
    let a = written(pieces) + seq![quote] + rest;
    let b = written(pieces);
    let c = written(pieces) + seq!['\\'];
    if pieces.len() == 0 {
        assert(a.skip(1) =~= rest);
        assert(said(pieces) =~= Seq::<char>::empty());
    } else {
        let tail = pieces.skip(1);
        assert forall|i: int| 0 <= i < tail.len() implies (#[trigger] tail[i]).0 || (tail[i].1
            != quote && tail[i].1 != '\\') by {
            assert(pieces[i + 1].0 || pieces[i + 1].1 != quote);
        }
        lemma_quotation(tail, quote, rest);
        let ch = pieces[0].1;
        assert(seq![ch] + said(tail) =~= said(pieces));
        assert(pieces[0].0 || (ch != quote && ch != '\\'));
        if pieces[0].0 {
            assert(a[0] == '\\' && a[1] == ch && b[0] == '\\' && b[1] == ch && c[0] == '\\' && c[1]
                == ch);
            assert(a.skip(2) =~= written(tail) + seq![quote] + rest);
            assert(b.skip(2) =~= written(tail));
            assert(c.skip(2) =~= written(tail) + seq!['\\']);
        } else {
            assert(a[0] == ch && b[0] == ch && c[0] == ch);
            assert(a.skip(1) =~= written(tail) + seq![quote] + rest);
            assert(b.skip(1) =~= written(tail));
            assert(c.skip(1) =~= written(tail) + seq!['\\']);
        }
    }
}

/// Tells whether a text has no quotes and no blanks in it.
pub open spec fn unquoted(text: Seq<char>) -> bool {
    forall|i: int|
        0 <= i < text.len() ==> #[trigger] text[i] != '"' && text[i] != '\'' && text[i] != ' '
            && text[i] != '\t'
}

/// Every line is read word by word: nothing is no word, blanks part words, a text
/// without quotes and blanks is a word, and a quotation, of either kind, ends the
/// word that it stands in. In a quotation a backslash stands for the character
/// behind it, and the end of the line ends it too.
pub proof fn law_lines_are_read_word_by_word(
    before: Seq<char>,
    blank: char,
    quote: char,
    pieces: Seq<(bool, char)>,
    rest: Seq<char>,
)
    requires
        unquoted(before),
        blank == ' ' || blank == '\t',
        quote == '"' || quote == '\'',
        quotable(pieces, quote),
    ensures
        words(Seq::empty()) == Seq::<Seq<char>>::empty(),
        words(seq![blank] + rest) == words(rest),
        before.len() > 0 ==> words(before) == seq![before],
        before.len() > 0 ==> words(before + seq![blank] + rest) == seq![before] + words(rest),
        words(before + seq![quote] + written(pieces) + seq![quote] + rest) == seq![
            before + said(pieces),
        ] + words(rest),
        words(before + seq![quote] + written(pieces)) == seq![before + said(pieces)],
        words(before + seq![quote] + written(pieces) + seq!['\\']) == seq![before + said(pieces)],
{
    let none = Seq::<char>::empty();
    assert(none + before =~= before);
    assert forall|i: int| 0 <= i < before.len() implies !is_quote(#[trigger] before[i])
        && !is_blank(before[i]) by {}
    let b1 = seq![blank] + rest;
    assert(b1.skip(1) =~= rest);
    assert(crate::script::word(none) + words(rest) =~= words(rest));
    lemma_bare(before, none, none);
    assert(before + none =~= before);
    lemma_bare(before, none, b1);
    assert(before + b1 =~= before + seq![blank] + rest);
    lemma_quotation(pieces, quote, rest);
    let closed = seq![quote] + written(pieces) + seq![quote] + rest;
    assert(closed.skip(1) =~= written(pieces) + seq![quote] + rest);
    lemma_bare(before, none, closed);
    assert(before + closed =~= before + seq![quote] + written(pieces) + seq![quote] + rest);
    let open = seq![quote] + written(pieces);
    assert(open.skip(1) =~= written(pieces));
    lemma_bare(before, none, open);
    assert(before + open =~= before + seq![quote] + written(pieces));
    let cut = seq![quote] + written(pieces) + seq!['\\'];
    assert(cut.skip(1) =~= written(pieces) + seq!['\\']);
    lemma_bare(before, none, cut);
    assert(before + cut =~= before + seq![quote] + written(pieces) + seq!['\\']);
    let one = seq![before + said(pieces)];
    assert(words(none) =~= Seq::<Seq<char>>::empty());
    assert(one + words_from(none, none) =~= one);
}

/// Tells whether a text holds no `x` of either case.
pub open spec fn without_x(text: Seq<char>) -> bool {
    forall|i: int| 0 <= i < text.len() ==> #[trigger] text[i] != 'x' && text[i] != 'X'
}

/// A viewport is a number, an `x` of either case and a number; what stands behind a
/// further `x` makes no difference, and without an `x` there is none.
pub proof fn law_viewport_is_two_numbers(
    width: Seq<char>,
    x: char,
    height: Seq<char>,
    other: char,
    more: Seq<char>,
)
    requires
        without_x(width),
        without_x(height),
        x == 'x' || x == 'X',
        other == 'x' || other == 'X',
    ensures
        viewport(width) is None,
        viewport(width + seq![x] + height) == match (
            parsed_unsigned(width, u32::MAX as nat),
            parsed_unsigned(height, u32::MAX as nat),
        ) {
            (Some(w), Some(h)) => Some((w as u32, h as u32)),
            _ => None,
        },
        viewport(width + seq![x] + height + seq![other] + more) == viewport(
            width + seq![x] + height,
        ),
{
    let at = width.len() as int;
    let end = height.len() as int;
    lemma_first_of_is(width, 'x', 'X', at);
    let two = width + seq![x] + height;
    assert forall|i: int| 0 <= i < at implies two[i] != 'x' && two[i] != 'X' by {
        assert(two[i] == width[i]);
    }
    lemma_first_of_is(two, 'x', 'X', at);
    assert(two.take(at) =~= width);
    assert(two.skip(at + 1) =~= height);
    lemma_first_of_is(height, 'x', 'X', end);
    assert(height.take(end) =~= height);
    let three = width + seq![x] + height + seq![other] + more;
    assert forall|i: int| 0 <= i < at implies three[i] != 'x' && three[i] != 'X' by {
        assert(three[i] == width[i]);
    }
    lemma_first_of_is(three, 'x', 'X', at);
    assert(three.take(at) =~= width);
    let rest = three.skip(at + 1);
    assert(rest =~= height + seq![other] + more);
    assert forall|i: int| 0 <= i < end implies rest[i] != 'x' && rest[i] != 'X' by {
        assert(rest[i] == height[i]);
    }
    lemma_first_of_is(rest, 'x', 'X', end);
    assert(rest.take(end) =~= height);
}

/// Each command of a script asks for what it is named after, with its arguments in
/// their places; where an argument is missing, the line is refused.
pub proof fn law_script_commands(args: Seq<Seq<char>>)
    ensures
        script_action(Seq::empty()) == Err::<ActionView, Seq<char>>("empty line"@),
        args.len() >= 1 ==> {
            &&& script_action(seq!["navigate"@] + args) == Ok::<ActionView, Seq<char>>(
                ActionView::Navigate(args[0]),
            )
            &&& script_action(seq!["goto"@] + args) == Ok::<ActionView, Seq<char>>(
                ActionView::Navigate(args[0]),
            )
            &&& script_action(seq!["eval"@] + args) == Ok::<ActionView, Seq<char>>(
                ActionView::Eval(args[0]),
            )
            &&& script_action(seq!["click"@] + args) == Ok::<ActionView, Seq<char>>(
                ActionView::Click(args[0]),
            )
            &&& script_action(seq!["wait"@] + args) == Ok::<ActionView, Seq<char>>(
                ActionView::Wait(args[0]),
            )
            &&& script_action(seq!["viewport"@] + args) == match viewport(args[0]) {
                Some((w, h)) => Ok(ActionView::Viewport(w, h)),
                None => Err("expected WxH"@),
            }
        },
        args.len() == 0 ==> {
            let few = Err::<ActionView, Seq<char>>("expected 1 argument(s)"@);
            &&& script_action(seq!["navigate"@] + args) == few
            &&& script_action(seq!["goto"@] + args) == few
            &&& script_action(seq!["eval"@] + args) == few
            &&& script_action(seq!["click"@] + args) == few
            &&& script_action(seq!["wait"@] + args) == few
            &&& script_action(seq!["viewport"@] + args) == few
        },
        script_action(seq!["type"@] + args) == (if args.len() >= 2 {
            Ok::<ActionView, Seq<char>>(ActionView::Type(args[0], args[1]))
        } else {
            Err("expected 2 argument(s)"@)
        }),
        script_action(seq!["screenshot"@] + args) == Ok::<ActionView, Seq<char>>(
            ActionView::Screenshot(
                if args.len() > 0 {
                    Some(args[0])
                } else {
                    None
                },
                if args.len() > 1 {
                    args[1]
                } else {
                    "png"@
                },
            ),
        ),
        script_action(seq!["pdf"@] + args) == Ok::<ActionView, Seq<char>>(
            ActionView::Pdf(
                if args.len() > 0 {
                    Some(args[0])
                } else {
                    None
                },
            ),
        ),
        script_action(seq!["title"@] + args) == Ok::<ActionView, Seq<char>>(ActionView::Title),
        script_action(seq!["content"@] + args) == Ok::<ActionView, Seq<char>>(
            ActionView::Content,
        ),
{
    lemma_command_names();
    lemma_one_word("navigate"@, args);
    lemma_one_word("goto"@, args);
    lemma_one_word("eval"@, args);
    lemma_one_word("click"@, args);
    lemma_one_word("wait"@, args);
    lemma_one_word("viewport"@, args);
    lemma_one_word("type"@, args);
    lemma_one_word("screenshot"@, args);
    lemma_one_word("pdf"@, args);
    lemma_one_word("title"@, args);
    lemma_one_word("content"@, args);
    reveal_strlit("expected ");
    reveal_strlit(" argument(s)");
    reveal_strlit("expected 1 argument(s)");
    reveal_strlit("expected 2 argument(s)");
    assert("expected "@ + decimal(1) + " argument(s)"@ =~= "expected 1 argument(s)"@);
    assert("expected "@ + decimal(2) + " argument(s)"@ =~= "expected 2 argument(s)"@);
    assert(argument(args, 0) == (if args.len() > 0 {
        Some(args[0])
    } else {
        None
    }));
}

/// A line that starts with no command of a script is refused, and told.
pub proof fn law_unknown_script_command(cmd: Seq<char>, args: Seq<Seq<char>>)
    requires
        cmd != "navigate"@,
        cmd != "goto"@,
        cmd != "eval"@,
        cmd != "click"@,
        cmd != "type"@,
        cmd != "screenshot"@,
        cmd != "pdf"@,
        cmd != "wait"@,
        cmd != "title"@,
        cmd != "content"@,
        cmd != "viewport"@,
    ensures
        script_action(seq![cmd] + args) == Err::<ActionView, Seq<char>>("unknown command: "@ + cmd),
{
    assert((seq![cmd] + args)[0] == cmd);
}

} // verus!
