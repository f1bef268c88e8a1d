use flashwright::error::Error;
use flashwright::script::need;
use flashwright::script::parse_script_line;
use flashwright::script::parse_viewport;
use flashwright::script::script_lines;
use flashwright::script::tokenize;
use flashwright::script::Action;

fn s(text: &str) -> String {
    text.to_string()
}

fn words(line: &str) -> Vec<String> {
    tokenize(line).unwrap()
}

#[test]
fn viewport_is_width_and_height() {
    assert_eq!(parse_viewport("800x600"), Some((800, 600)));
    assert_eq!(parse_viewport("800X600"), Some((800, 600)));
    assert_eq!(parse_viewport("1x2x3"), Some((1, 2)));
    assert_eq!(parse_viewport("+1x+2"), Some((1, 2)));
    assert_eq!(parse_viewport("4294967295x0"), Some((u32::MAX, 0)));
    for bad in ["", "800", "x600", "800x", "800 x 600", "4294967296x1", "axb", "-1x2"] {
        assert_eq!(parse_viewport(bad), None, "{}", bad);
    }
}

#[test]
fn viewport_reads_back() {
    assert_eq!(parse_viewport(&format!("{}x{}", 1280, 720)), Some((1280, 720)));
    assert_eq!(parse_viewport(&format!("{}X{}", 1280, 720)), Some((1280, 720)));
}

#[test]
fn words_are_parted_by_blanks() {
    assert_eq!(words("click  #a\tb"), vec!["click", "#a", "b"]);
    assert_eq!(words(" \t "), Vec::<String>::new());
    assert_eq!(words(""), Vec::<String>::new());
    assert_eq!(words("a\nb"), vec!["a\nb"]);
}

#[test]
fn quotations_are_words() {
    assert_eq!(words("type '#q' \"hello world\""), vec!["type", "#q", "hello world"]);
    assert_eq!(words("a \"\" b"), vec!["a", "", "b"]);
    assert_eq!(words("\"it's\" '\"'"), vec!["it's", "\""]);
    assert_eq!(words(r#""a\"b\\c\n""#), vec!["a\"b\\cn"]);
}

#[test]
fn quotation_ends_a_word_that_began_before_it() {
    assert_eq!(words("ab'cd'ef gh"), vec!["abcd", "ef", "gh"]);
}

#[test]
fn open_quotation_ends_with_the_line() {
    assert_eq!(words("'abc"), vec!["abc"]);
    assert_eq!(words("'abc\\"), vec!["abc"]);
    assert_eq!(words("'"), vec![""]);
}

#[test]
fn quoted_text_reads_back() {
    let text = "a \"b\" \\ 'c'";
    let quoted = format!("\"{}\"", text.replace('\\', "\\\\").replace('"', "\\\""));
    assert_eq!(words(&quoted), vec![text]);
}

#[test]
fn bare_text_is_a_word() {
    assert_eq!(words("https://example.com/?q=1#x"), vec!["https://example.com/?q=1#x"]);
    assert_eq!(words("   bare"), words("bare"));
}

#[test]
fn arguments_are_counted() {
    assert_eq!(need(&vec![s("a")], 1), Ok(()));
    assert_eq!(need(&vec![], 0), Ok(()));
    assert_eq!(need(&vec![s("a")], 2), Err(Error::MissingArguments(2)));
}

#[test]
fn lines_are_actions() {
    assert_eq!(parse_script_line("navigate http://a"), Ok(Action::Navigate(s("http://a"))));
    assert_eq!(parse_script_line("goto http://a b"), Ok(Action::Navigate(s("http://a"))));
    assert_eq!(parse_script_line("eval '1 + 1'"), Ok(Action::Eval(s("1 + 1"))));
    assert_eq!(parse_script_line("click #a"), Ok(Action::Click(s("#a"))));
    assert_eq!(parse_script_line("type #a 'x y'"), Ok(Action::Type(s("#a"), s("x y"))));
    assert_eq!(parse_script_line("screenshot"), Ok(Action::Screenshot(None, s("png"))));
    assert_eq!(
        parse_script_line("screenshot a.jpg jpeg"),
        Ok(Action::Screenshot(Some(s("a.jpg")), s("jpeg")))
    );
    assert_eq!(parse_script_line("pdf"), Ok(Action::Pdf(None)));
    assert_eq!(parse_script_line("pdf a.pdf"), Ok(Action::Pdf(Some(s("a.pdf")))));
    assert_eq!(parse_script_line("wait .x"), Ok(Action::Wait(s(".x"))));
    assert_eq!(parse_script_line("title"), Ok(Action::Title));
    assert_eq!(parse_script_line("content"), Ok(Action::Content));
    assert_eq!(parse_script_line("viewport 10x20"), Ok(Action::Viewport(10, 20)));
}

#[test]
fn bad_lines_are_refused() {
    assert_eq!(parse_script_line("  "), Err(Error::EmptyLine));
    assert_eq!(parse_script_line("navigate"), Err(Error::MissingArguments(1)));
    assert_eq!(parse_script_line("type #a"), Err(Error::MissingArguments(2)));
    assert_eq!(parse_script_line("viewport"), Err(Error::MissingArguments(1)));
    assert_eq!(parse_script_line("viewport big"), Err(Error::ExpectedSize));
    assert_eq!(parse_script_line("dance now"), Err(Error::UnknownCommand(s("dance"))));
    assert_eq!(parse_script_line("'' x"), Err(Error::UnknownCommand(s(""))));
}

#[test]
fn scripts_leave_out_blank_lines_and_comments() {
    let content = "# first\n\n  title  \r\n\t# more\nclick '#a'\n   ";
    assert_eq!(script_lines(content), vec!["title", "click '#a'"]);
    assert!(script_lines("").is_empty());
}

#[test]
fn kept_lines_have_words() {
    for line in script_lines("a\n \n#\n'b c'\n") {
        assert!(!words(&line).is_empty());
    }
}
