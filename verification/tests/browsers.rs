use flashwright::browser::browser_args;
use flashwright::browser::find_chrome;
use flashwright::browser::profile_name;
use flashwright::browser::read_endpoint;
use flashwright::browser::Browser;
use flashwright::browser::Launch;
use flashwright::browser::Search;
use flashwright::browser::Seen;
use flashwright::error::Error;
use flashwright::session::Session;

fn found(path: &str) -> Result<Search, Error> {
    Ok(Search::Found(path.to_string()))
}

fn next(path: &str) -> Result<Search, Error> {
    Ok(Search::Try(path.to_string()))
}

#[test]
fn asked_path_is_the_only_one() {
    assert_eq!(find_chrome(Some("/c"), Some("/e"), &vec![]), next("/c"));
    assert_eq!(find_chrome(Some("/c"), Some("/e"), &vec![true]), found("/c"));
    assert_eq!(
        find_chrome(Some("/c"), Some("/e"), &vec![false]),
        Err(Error::ChromeNotFound("/c".to_string()))
    );
}

#[test]
fn paths_are_tried_in_order() {
    let mut answers = vec![];
    let mut tried = vec![];
    loop {
        match find_chrome(None, Some("/e"), &answers) {
            Ok(Search::Try(path)) => {
                tried.push(path);
                answers.push(false);
            }
            Err(error) => {
                assert_eq!(error, Error::NoChrome);
                break;
            }
            other => panic!("{:?}", other),
        }
    }
    assert_eq!(
        tried,
        vec![
            "/e",
            "/Applications/Google Chrome.app/Contents/MacOS/Google Chrome",
            "/Applications/Chromium.app/Contents/MacOS/Chromium",
            "/Applications/Microsoft Edge.app/Contents/MacOS/Microsoft Edge",
            "/Applications/Brave Browser.app/Contents/MacOS/Brave Browser",
            "/usr/bin/google-chrome",
            "/usr/bin/chromium",
            "/usr/bin/chromium-browser",
            "/usr/local/bin/chrome",
        ]
    );
}

#[test]
fn first_path_wins() {
    assert_eq!(
        find_chrome(None, None, &vec![false, false, false, false, true, true]),
        found("/usr/bin/google-chrome")
    );
    assert_eq!(find_chrome(None, Some("/e"), &vec![true]), found("/e"));
}

#[test]
fn profile_is_named_by_process() {
    assert_eq!(profile_name(4321), "flashwright-4321");
}

#[test]
fn browser_line_is_complete() {
    let headed = browser_args("/tmp/p", false);
    assert_eq!(headed.len(), 35);
    assert_eq!(headed[0], "--remote-debugging-port=0");
    assert_eq!(headed[1], "--user-data-dir=/tmp/p");
    assert_eq!(headed[13], "--disable-features=TranslateUI");
    assert_eq!(headed[34], "about:blank");
    let headless = browser_args("/tmp/p", true);
    assert_eq!(headless[0], "--headless=new");
    assert_eq!(headless[1..].to_vec(), headed);
}

#[test]
fn endpoint_is_in_the_port_file() {
    assert_eq!(
        read_endpoint("9222\n/devtools/browser/x\n"),
        Some("ws://127.0.0.1:9222/devtools/browser/x".to_string())
    );
    assert_eq!(read_endpoint(" 1 \r\n /p \nmore"), Some("ws://127.0.0.1:1/p".to_string()));
    for bad in ["", "9222", "9222\n", "\n/p", " \n/p", "9222\np", "9222\n\n/p"] {
        assert_eq!(read_endpoint(bad), None, "{:?}", bad);
    }
}

#[test]
fn endpoint_splits() {
    let url = read_endpoint("9222\n/devtools/browser/x\n").unwrap();
    let handshake = Session::connect(&url);
    assert_eq!(handshake.host_port, "127.0.0.1:9222");
    assert!(handshake.request.starts_with("GET /devtools/browser/x HTTP/1.1\r\n"));
}

#[test]
fn launch_goes_round_until_ready() {
    assert_eq!(Browser::launch(Seen::Elapsed(0)), Ok(Launch::CheckProcess));
    assert_eq!(Browser::launch(Seen::Running), Ok(Launch::ReadPortFile));
    assert_eq!(Browser::launch(Seen::PortFile(None)), Ok(Launch::Pause(5)));
    assert_eq!(Browser::launch(Seen::PortFile(Some("1\n".to_string()))), Ok(Launch::Pause(5)));
    assert_eq!(Browser::launch(Seen::Paused), Ok(Launch::CheckClock));
    assert_eq!(
        Browser::launch(Seen::PortFile(Some("1\n/x".to_string()))),
        Ok(Launch::Ready(Browser { ws_url: "ws://127.0.0.1:1/x".to_string() }))
    );
}

#[test]
fn launch_can_fail() {
    assert_eq!(Browser::launch(Seen::Elapsed(30_000_000_000)), Ok(Launch::CheckProcess));
    assert_eq!(Browser::launch(Seen::Elapsed(30_000_000_001)), Err(Error::EndpointTimeout));
    assert_eq!(
        Browser::launch(Seen::Exited("exit status: 1".to_string())).unwrap_err().message(),
        "chrome exited before ready: exit status: 1"
    );
}
