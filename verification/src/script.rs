//! Scripts: one action on each line.
use vstd::prelude::*;

use crate::error::told;
use crate::error::Error;
use crate::text::chars_of;
use crate::text::decimal;
use crate::text::find_first;
use crate::text::first_of;
use crate::text::is_digit;
use crate::text::is_white_space;
use crate::text::law_decimal_reads_back;
use crate::text::lemma_first_of;
use crate::text::lemma_first_of_is;
use crate::text::lines;
use crate::text::parse_unsigned;
use crate::text::parsed_unsigned;
use crate::text::split_lines;
use crate::text::string_of;
use crate::text::text_eq;
use crate::text::texts;
use crate::text::trim;
use crate::text::trimmed;

verus! {

/// Something to do with the page.
#[derive(Debug, PartialEq, Eq)]
pub enum Action {
    /// Go to an address.
    Navigate(String),
    /// Evaluate an expression.
    Eval(String),
    /// Click the element that a selector matches.
    Click(String),
    /// Type into the element that a selector matches: the selector and the text.
    Type(String, String),
    /// Take a screenshot: the file to write, and the image format.
    Screenshot(Option<String>, String),
    /// Print the page: the file to write.
    Pdf(Option<String>),
    /// Wait until a selector matches an element.
    Wait(String),
    /// Tell the title of the page.
    Title,
    /// Tell the content of the page.
    Content,
    /// Set the width and the height of the viewport.
    Viewport(u32, u32),
}

/// Something to do with the page.
pub enum ActionView {
    Navigate(Seq<char>),
    Eval(Seq<char>),
    Click(Seq<char>),
    Type(Seq<char>, Seq<char>),
    Screenshot(Option<Seq<char>>, Seq<char>),
    Pdf(Option<Seq<char>>),
    Wait(Seq<char>),
    Title,
    Content,
    Viewport(u32, u32),
}

/// The text of an optional string.
pub open spec fn opt_string(s: Option<String>) -> Option<Seq<char>> {
    match s {
        Some(s) => Some(s@),
        None => None,
    }
}

impl View for Action {
    type V = ActionView;

    open spec fn view(&self) -> ActionView {
        match self {
            Action::Navigate(url) => ActionView::Navigate(url@),
            Action::Eval(expr) => ActionView::Eval(expr@),
            Action::Click(selector) => ActionView::Click(selector@),
            Action::Type(selector, text) => ActionView::Type(selector@, text@),
            Action::Screenshot(out, format) => ActionView::Screenshot(opt_string(*out), format@),
            Action::Pdf(out) => ActionView::Pdf(opt_string(*out)),
            Action::Wait(selector) => ActionView::Wait(selector@),
            Action::Title => ActionView::Title,
            Action::Content => ActionView::Content,
            Action::Viewport(w, h) => ActionView::Viewport(*w, *h),
        }
    }
}

/// A width and a height with an `x` of either case between them; a further `x`
/// ends the height.
pub open spec fn viewport(s: Seq<char>) -> Option<(u32, u32)> {
    let at = first_of(s, 'x', 'X');
    let rest = s.skip(at + 1);
    let end = first_of(rest, 'x', 'X');
    if at < s.len() {
        match (
            parsed_unsigned(s.take(at), u32::MAX as nat),
            parsed_unsigned(rest.take(end), u32::MAX as nat),
        ) {
            (Some(w), Some(h)) => Some((w as u32, h as u32)),
            _ => None,
        }
    } else {
        None
    }
}

/// Tells whether a character opens and closes a quotation.
pub open spec fn is_quote(c: char) -> bool {
    c == '"' || c == '\''
}

/// Tells whether a character parts two words.
pub open spec fn is_blank(c: char) -> bool {
    c == ' ' || c == '\t'
}

/// What a quotation says that starts here, behind its opening quote, and what
/// follows it. A backslash takes the next character as it stands; the end of the
/// text ends the quotation too.
pub open spec fn quotation(s: Seq<char>, quote: char) -> (Seq<char>, Seq<char>)
    decreases s.len(),
{
    if s.len() == 0 {
        (Seq::empty(), Seq::empty())
    } else if s[0] == '\\' {
        if s.len() == 1 {
            (Seq::empty(), Seq::empty())
        } else {
            let (more, rest) = quotation(s.skip(2), quote);
            (seq![s[1]] + more, rest)
        }
    } else if s[0] == quote {
        (Seq::empty(), s.skip(1))
    } else {
        let (more, rest) = quotation(s.skip(1), quote);
        (seq![s[0]] + more, rest)
    }
}

/// What follows a quotation is no longer than what it started in.
pub proof fn lemma_quotation_rest(s: Seq<char>, quote: char)
    ensures
        quotation(s, quote).1.len() <= s.len(),
    decreases s.len(),
{
    if s.len() == 0 {
    } else if s[0] == '\\' {
        if s.len() > 1 {
            lemma_quotation_rest(s.skip(2), quote);
        }
    } else if s[0] == quote {
    } else {
        lemma_quotation_rest(s.skip(1), quote);
    }
}

/// A word, unless it is empty.
pub open spec fn word(s: Seq<char>) -> Seq<Seq<char>> {
    if s.len() > 0 {
        seq![s]
    } else {
        Seq::empty()
    }
}

/// The words from here on, where `cur` has been read of the first: blanks end a
/// word, and so does a closing quote, even where the word is empty.
pub open spec fn words_from(s: Seq<char>, cur: Seq<char>) -> Seq<Seq<char>>
    decreases s.len(),
{
    if s.len() == 0 {
        word(cur)
    } else if is_quote(s[0]) {
        let (said, rest) = quotation(s.skip(1), s[0]);
        proof {
            lemma_quotation_rest(s.skip(1), s[0]);
        }
        seq![cur + said] + words_from(rest, Seq::empty())
    } else if is_blank(s[0]) {
        word(cur) + words_from(s.skip(1), Seq::empty())
    } else {
        words_from(s.skip(1), cur.push(s[0]))
    }
}

/// The words of a line.
pub open spec fn words(line: Seq<char>) -> Seq<Seq<char>> {
    words_from(line, Seq::empty())
}

/// The failure that so many arguments are needed.
pub open spec fn too_few(n: nat) -> Seq<char> {
    "expected "@ + decimal(n) + " argument(s)"@
}

/// The argument at a place, where there is one.
pub open spec fn argument(args: Seq<Seq<char>>, i: int) -> Option<Seq<char>> {
    if i < args.len() {
        Some(args[i])
    } else {
        None
    }
}

/// The action that the words of a line ask for.
pub open spec fn script_action(words: Seq<Seq<char>>) -> Result<ActionView, Seq<char>> {
    let cmd = words[0];
    let args = words.skip(1);
    if words.len() == 0 {
        Err("empty line"@)
    } else if cmd == "navigate"@ || cmd == "goto"@ {
        if args.len() < 1 {
            Err(too_few(1))
        } else {
            Ok(ActionView::Navigate(args[0]))
        }
    } else if cmd == "eval"@ {
        if args.len() < 1 {
            Err(too_few(1))
        } else {
            Ok(ActionView::Eval(args[0]))
        }
    } else if cmd == "click"@ {
        if args.len() < 1 {
            Err(too_few(1))
        } else {
            Ok(ActionView::Click(args[0]))
        }
    } else if cmd == "type"@ {
        if args.len() < 2 {
            Err(too_few(2))
        } else {
            Ok(ActionView::Type(args[0], args[1]))
        }
    } else if cmd == "screenshot"@ {
        let format = match argument(args, 1) {
            Some(format) => format,
            None => "png"@,
        };
        Ok(ActionView::Screenshot(argument(args, 0), format))
    } else if cmd == "pdf"@ {
        Ok(ActionView::Pdf(argument(args, 0)))
    } else if cmd == "wait"@ {
        if args.len() < 1 {
            Err(too_few(1))
        } else {
            Ok(ActionView::Wait(args[0]))
        }
    } else if cmd == "title"@ {
        Ok(ActionView::Title)
    } else if cmd == "content"@ {
        Ok(ActionView::Content)
    } else if cmd == "viewport"@ {
        if args.len() < 1 {
            Err(too_few(1))
        } else {
            match viewport(args[0]) {
                Some((w, h)) => Ok(ActionView::Viewport(w, h)),
                None => Err("expected WxH"@),
            }
        }
    } else {
        Err("unknown command: "@ + cmd)
    }
}

/// Reads a width and a height.
pub fn parse_viewport(s: &str) -> (out: Option<(u32, u32)>)
    ensures
        out == viewport(s@),
{
    let chars = chars_of(s);
    let at: usize = find_first(&chars, 'x', 'X');
    proof {
        lemma_first_of(chars@, 'x', 'X');
    }
    if at >= chars.len() {
        return None;
    }
    let first = string_of(&chars, 0, at);
    let rest_text = string_of(&chars, at + 1, chars.len());
    let rest = chars_of(rest_text.as_str());
    let end: usize = find_first(&rest, 'x', 'X');
    proof {
        lemma_first_of(rest@, 'x', 'X');
    }
    let second = string_of(&rest, 0, end);
    proof {
        assert(first@ =~= s@.take(at as int));
        assert(rest@ =~= s@.skip(at + 1));
        assert(second@ =~= rest@.take(end as int));
    }
    let w: u64 = match parse_unsigned(first.as_str(), u32::MAX as u64) {
        Some(w) => w,
        None => return None,
    };
    let h: u64 = match parse_unsigned(second.as_str(), u32::MAX as u64) {
        Some(h) => h,
        None => return None,
    };
    Some((w as u32, h as u32))
}

/// Makes sure that there are at least `n` arguments.
pub fn need(args: &Vec<String>, n: usize) -> (out: Result<(), Error>)
    ensures
        match out {
            Ok(_) => args@.len() >= n,
            Err(error) => args@.len() < n && error == Error::MissingArguments(n),
        },
{
    if args.len() < n {
        return Err(Error::MissingArguments(n));
    }
    Ok(())
}

proof fn lemma_push_text(out: Seq<String>, s: String)
    ensures
        texts(out.push(s)) == texts(out).push(s@),
{
    assert(texts(out.push(s)) =~= texts(out).push(s@));
}

/// Parts a line into words.
pub fn tokenize(line: &str) -> (out: Result<Vec<String>, Error>)
    ensures
        out matches Ok(found) && texts(found@) == words(line@),
{
    let chars = chars_of(line);
    let n: usize = chars.len();
    let mut out: Vec<String> = Vec::new();
    let mut cur = String::new();
    let mut at: usize = 0;
    assert(line@.skip(0) =~= line@);
    assert(texts(out@) + words(line@) =~= words(line@));
    while at < n
        invariant
            n == chars@.len(),
            chars@ == line@,
            at <= n,
            texts(out@) + words_from(line@.skip(at as int), cur@) == words(line@),
        decreases n - at,
    {
        let c = chars[at];
        let ghost here = line@.skip(at as int);
        let ghost before = cur@;
        assert(here[0] == c);
        at = at + 1;
        assert(here.skip(1) =~= line@.skip(at as int));
        if c == '"' || c == '\'' {
            let ghost whole = quotation(here.skip(1), c);
            let ghost from = at;
            let mut open = true;
            assert(before + whole.0 =~= cur@ + whole.0);
            while open && at < n
                invariant
                    n == chars@.len(),
                    chars@ == line@,
                    from <= at <= n,
                    open ==> {
                        &&& whole.1 == quotation(line@.skip(at as int), c).1
                        &&& before + whole.0 == cur@ + quotation(line@.skip(at as int), c).0
                    },
                    !open ==> {
                        &&& whole.1 == line@.skip(at as int)
                        &&& before + whole.0 == cur@
                    },
                decreases n - at,
            {
                let ghost inside = line@.skip(at as int);
                let ghost so_far = cur@;
                let next = chars[at];
                assert(inside[0] == next);
                at = at + 1;
                assert(inside.skip(1) =~= line@.skip(at as int));
                if next == '\\' {
                    if at < n {
                        assert(inside[1] == chars[at as int]);
                        cur.push(chars[at]);
                        at = at + 1;
                        assert(inside.skip(2) =~= line@.skip(at as int));
                        assert(so_far + quotation(inside, c).0 =~= cur@ + quotation(
                            line@.skip(at as int),
                            c,
                        ).0);
                    } else {
                        assert(line@.skip(at as int).len() == 0);
                    }
                } else if next == c {
                    open = false;
                    assert(so_far + quotation(inside, c).0 =~= cur@);
                } else {
                    cur.push(next);
                    assert(so_far + quotation(inside, c).0 =~= cur@ + quotation(
                        line@.skip(at as int),
                        c,
                    ).0);
                }
            }
            proof {
                if open {
                    assert(line@.skip(at as int).len() == 0);
                    assert(cur@ + quotation(line@.skip(at as int), c).0 =~= cur@);
                    assert(whole.1 =~= line@.skip(at as int));
                }
                assert(cur@ == before + whole.0);
                lemma_push_text(out@, cur);
                assert(texts(out@).push(cur@) + words_from(whole.1, Seq::empty()) =~= texts(out@)
                    + (seq![cur@] + words_from(whole.1, Seq::empty())));
            }
            out.push(cur);
            cur = String::new();
        } else if c == ' ' || c == '\t' {
            if !cur.as_str().is_empty() {
                proof {
                    lemma_push_text(out@, cur);
                    assert(texts(out@).push(cur@) + words_from(line@.skip(at as int), Seq::empty())
                        =~= texts(out@) + (word(cur@) + words_from(
                        line@.skip(at as int),
                        Seq::empty(),
                    )));
                }
                out.push(cur);
                cur = String::new();
            } else {
                assert(word(cur@) + words_from(line@.skip(at as int), Seq::empty()) =~= words_from(
                    line@.skip(at as int),
                    Seq::empty(),
                ));
                assert(cur@ =~= Seq::<char>::empty());
            }
        } else {
            cur.push(c);
        }
    }
    assert(line@.skip(at as int).len() == 0);
    if !cur.as_str().is_empty() {
        proof {
            lemma_push_text(out@, cur);
            assert(texts(out@).push(cur@) =~= texts(out@) + word(cur@));
        }
        out.push(cur);
    } else {
        assert(texts(out@) + word(cur@) =~= texts(out@));
    }
    Ok(out)
}

fn argument_at(args: &Vec<String>, i: usize) -> (out: Option<String>)
    ensures
        opt_string(out) == argument(texts(args@), i as int),
{
    if i < args.len() {
        Some(args[i].clone())
    } else {
        None
    }
}

/// Reads the action on a line of a script.
pub fn parse_script_line(line: &str) -> (out: Result<Action, Error>)
    ensures
        told(out) == script_action(words(line@)),
{
    let mut tokens = tokenize(line)?;
    let ghost all = words(line@);
    if tokens.len() == 0 {
        return Err(Error::EmptyLine);
    }
    let cmd = tokens.remove(0);
    let args = tokens;
    proof {
        assert(texts(args@) =~= all.skip(1));
        assert(cmd@ == all[0]);
    }
    action_of(cmd, args)
}

fn action_of(cmd: String, args: Vec<String>) -> (out: Result<Action, Error>)
    ensures
        told(out) == script_action(seq![cmd@] + texts(args@)),
{
    proof {
        let all = seq![cmd@] + texts(args@);
        assert(all.skip(1) =~= texts(args@));
        assert(all[0] == cmd@);
    }
    let name = cmd.as_str();
    if text_eq(name, "navigate") || text_eq(name, "goto") {
        need(&args, 1)?;
        Ok(Action::Navigate(args[0].clone()))
    } else if text_eq(name, "eval") {
        need(&args, 1)?;
        Ok(Action::Eval(args[0].clone()))
    } else if text_eq(name, "click") {
        need(&args, 1)?;
        Ok(Action::Click(args[0].clone()))
    } else if text_eq(name, "type") {
        need(&args, 2)?;
        Ok(Action::Type(args[0].clone(), args[1].clone()))
    } else if text_eq(name, "screenshot") {
        let format = match argument_at(&args, 1) {
            Some(format) => format,
            None => "png".to_owned(),
        };
        Ok(Action::Screenshot(argument_at(&args, 0), format))
    } else if text_eq(name, "pdf") {
        Ok(Action::Pdf(argument_at(&args, 0)))
    } else if text_eq(name, "wait") {
        need(&args, 1)?;
        Ok(Action::Wait(args[0].clone()))
    } else if text_eq(name, "title") {
        Ok(Action::Title)
    } else if text_eq(name, "content") {
        Ok(Action::Content)
    } else if text_eq(name, "viewport") {
        need(&args, 1)?;
        match parse_viewport(args[0].as_str()) {
            Some((w, h)) => Ok(Action::Viewport(w, h)),
            None => Err(Error::ExpectedSize),
        }
    } else {
        Err(Error::UnknownCommand(cmd))
    }
}

/// The lines of a script that say something, from the given lines of its file:
/// trimmed, without empty ones and without comments.
pub open spec fn meaningful(lines: Seq<Seq<char>>) -> Seq<Seq<char>>
    decreases lines.len(),
{
    if lines.len() == 0 {
        Seq::empty()
    } else {
        let before = meaningful(lines.drop_last());
        let line = trim(lines.last());
        if line.len() == 0 || line[0] == '#' {
            before
        } else {
            before.push(line)
        }
    }
}

/// Reads the lines of a script that say something.
pub fn script_lines(content: &str) -> (out: Vec<String>)
    ensures
        texts(out@) == meaningful(lines(content@)),
{
    let all = split_lines(content);
    let n: usize = all.len();
    let mut out: Vec<String> = Vec::new();
    let ghost view = texts(all@);
    assert(texts(out@) =~= meaningful(view.take(0)));
    let mut i: usize = 0;
    while i < n
        invariant
            n == all@.len(),
            i <= n,
            view == texts(all@),
            texts(out@) == meaningful(view.take(i as int)),
        decreases n - i,
    {
        let line = trimmed(all[i].as_str());
        let chars = chars_of(line.as_str());
        assert(view[i as int] == all@[i as int]@);
        assert(view.take(i + 1).drop_last() =~= view.take(i as int));
        if chars.len() > 0 && chars[0] != '#' {
            proof {
                lemma_push_text(out@, line);
            }
            out.push(line);
        }
        i = i + 1;
    }
    assert(view.take(n as int) =~= view);
    out
}

/// A text between double quotes, with a backslash before each double quote and
/// each backslash in it.
pub open spec fn in_double_quotes(s: Seq<char>) -> Seq<char> {
    seq!['"'] + escaped(s) + seq!['"']
}

/// A text with a backslash before each double quote and each backslash in it.
pub open spec fn escaped(s: Seq<char>) -> Seq<char>
    decreases s.len(),
{
    if s.len() == 0 {
        Seq::empty()
    } else if s[0] == '"' || s[0] == '\\' {
        seq!['\\', s[0]] + escaped(s.skip(1))
    } else {
        seq![s[0]] + escaped(s.skip(1))
    }
}

proof fn lemma_escaped_quotation(s: Seq<char>, rest: Seq<char>)
    ensures
        quotation(escaped(s) + seq!['"'] + rest, '"') == (s, rest),
    decreases s.len(),
{
    let all = escaped(s) + seq!['"'] + rest;
    if s.len() == 0 {
        assert(all.skip(1) =~= rest);
        assert(s =~= Seq::<char>::empty());
    } else {
        lemma_escaped_quotation(s.skip(1), rest);
        let shorter = escaped(s.skip(1)) + seq!['"'] + rest;
        if s[0] == '"' || s[0] == '\\' {
            assert(all[0] == '\\' && all[1] == s[0]);
            assert(all.skip(2) =~= shorter);
        } else {
            assert(all[0] == s[0]);
            assert(all.skip(1) =~= shorter);
        }
        assert(seq![s[0]] + s.skip(1) =~= s);
    }
}

/// Any text between double quotes, escaped, is one word of a line, and says that
/// text; what follows it is read as if it stood alone.
pub proof fn law_quoted_text_is_a_word(text: Seq<char>, rest: Seq<char>)
    ensures
        words(in_double_quotes(text) + rest) == seq![text] + words(rest),
{
    let all = in_double_quotes(text) + rest;
    assert(all[0] == '"');
    assert(all.skip(1) =~= escaped(text) + seq!['"'] + rest);
    lemma_escaped_quotation(text, rest);
    assert(Seq::<char>::empty() + text =~= text);
}

/// Tells whether a text needs no quotes to be one word.
pub open spec fn is_bare(word: Seq<char>) -> bool {
    &&& word.len() > 0
    &&& forall|i: int|
        0 <= i < word.len() ==> !is_quote(#[trigger] word[i]) && !is_blank(word[i])
}

/// Characters that are neither quotes nor blanks are added to the word that is read.
pub proof fn lemma_bare(word: Seq<char>, cur: Seq<char>, rest: Seq<char>)
    requires
        forall|i: int|
            0 <= i < word.len() ==> !is_quote(#[trigger] word[i]) && !is_blank(word[i]),
    ensures
        words_from(word + rest, cur) == words_from(rest, cur + word),
    decreases word.len(),
{
    if word.len() == 0 {
        assert(word + rest =~= rest);
        assert(cur + word =~= cur);
    } else {
        let all = word + rest;
        assert(all[0] == word[0]);
        assert(!is_quote(word[0]) && !is_blank(word[0]));
        assert(all.skip(1) =~= word.skip(1) + rest);
        assert forall|i: int| 0 <= i < word.skip(1).len() implies !is_quote(
            #[trigger] word.skip(1)[i],
        ) && !is_blank(word.skip(1)[i]) by {
            assert(!is_quote(word[i + 1]));
        }
        lemma_bare(word.skip(1), cur.push(word[0]), rest);
        assert(cur.push(word[0]) + word.skip(1) =~= cur + word);
    }
}

/// A text without quotes and blanks is a word of a line where a blank or the end
/// of the line follows it.
pub proof fn law_bare_text_is_a_word(word: Seq<char>, blank: char, rest: Seq<char>)
    requires
        is_bare(word),
        is_blank(blank),
    ensures
        words(word) == seq![word],
        words(word + seq![blank] + rest) == seq![word] + words(rest),
{
    let none = Seq::<char>::empty();
    lemma_bare(word, none, none);
    assert(word + none =~= word);
    assert(none + word =~= word);
    let behind = seq![blank] + rest;
    lemma_bare(word, none, behind);
    assert(word + behind =~= word + seq![blank] + rest);
    assert(behind.skip(1) =~= rest);
    assert(behind[0] == blank);
}

/// Blanks before a line change nothing.
pub proof fn law_leading_blank(blank: char, rest: Seq<char>)
    requires
        is_blank(blank),
    ensures
        words(seq![blank] + rest) == words(rest),
{
    let all = seq![blank] + rest;
    assert(all.skip(1) =~= rest);
    assert(word(Seq::empty()) + words(rest) =~= words(rest));
}

proof fn lemma_words_nonempty(s: Seq<char>, cur: Seq<char>)
    requires
        cur.len() > 0 || exists|i: int| 0 <= i < s.len() && !is_blank(#[trigger] s[i]),
    ensures
        words_from(s, cur).len() > 0,
    decreases s.len(),
{
    if s.len() == 0 {
    } else if is_quote(s[0]) {
    } else if is_blank(s[0]) {
        if cur.len() == 0 {
            let i = choose|i: int| 0 <= i < s.len() && !is_blank(#[trigger] s[i]);
            assert(s.skip(1)[i - 1] == s[i]);
            lemma_words_nonempty(s.skip(1), Seq::empty());
        }
    } else {
        lemma_words_nonempty(s.skip(1), cur.push(s[0]));
    }
}

proof fn lemma_trimmed_edge(s: Seq<char>)
    ensures
        trim(s).len() > 0 ==> !is_white_space(trim(s).last()),
{
    lemma_trim_end_edge(crate::text::trim_start(s));
}

proof fn lemma_trim_end_edge(s: Seq<char>)
    ensures
        crate::text::trim_end(s).len() > 0 ==> !is_white_space(crate::text::trim_end(s).last()),
    decreases s.len(),
{
    if s.len() > 0 && is_white_space(s.last()) {
        lemma_trim_end_edge(s.drop_last());
    }
}

/// No line that is kept of a script is without words: none of them fails as an
/// empty line.
pub proof fn law_kept_lines_have_words(all: Seq<Seq<char>>, i: int)
    requires
        0 <= i < meaningful(all).len(),
    ensures
        meaningful(all)[i][0] != '#',
        words(meaningful(all)[i]).len() > 0,
    decreases all.len(),
{
    let before = meaningful(all.drop_last());
    let line = trim(all.last());
    if i < before.len() {
        law_kept_lines_have_words(all.drop_last(), i);
    } else {
        lemma_trimmed_edge(all.last());
        let k = line.len() - 1;
        assert(!is_blank(line[k]));
        lemma_words_nonempty(line, Seq::empty());
    }
}

/// A width and a height read back from the text that tells them, with an `x` of
/// either case.
pub proof fn law_viewport_reads_back(w: u32, x: char, h: u32)
    requires
        x == 'x' || x == 'X',
    ensures
        viewport(decimal(w as nat) + seq![x] + decimal(h as nat)) == Some((w, h)),
{
    let first = decimal(w as nat);
    let second = decimal(h as nat);
    let all = first + seq![x] + second;
    law_decimal_reads_back(w as nat, u32::MAX as nat);
    law_decimal_reads_back(h as nat, u32::MAX as nat);
    assert forall|i: int| 0 <= i < first.len() implies all[i] != 'x' && all[i] != 'X' by {
        assert(is_digit(first[i]));
    }
    lemma_first_of_is(all, 'x', 'X', first.len() as int);
    assert(all.take(first.len() as int) =~= first);
    assert(all.skip(first.len() as int + 1) =~= second);
    assert forall|i: int| 0 <= i < second.len() implies second[i] != 'x' && second[i] != 'X' by {
        assert(is_digit(second[i]));
    }
    lemma_first_of_is(second, 'x', 'X', second.len() as int);
    assert(second.take(second.len() as int) =~= second);
}

} // verus!
