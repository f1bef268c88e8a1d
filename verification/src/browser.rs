//! Finding and starting the browser.
use vstd::prelude::*;

use crate::error::joined;
use crate::error::Error;
use crate::session::opt_text;
use crate::session::url_host;
use crate::session::url_path;
use crate::text::chars_of;
use crate::text::decimal;
use crate::text::decimal_text;
use crate::text::lemma_first_of_is;
use crate::text::lines;
use crate::text::split_lines;
use crate::text::texts;
use crate::text::trim;
use crate::text::trimmed;

verus! {

/// The time in which the browser has to open its endpoint, in nanoseconds.
pub const LAUNCH_LIMIT: u128 = 30_000_000_000;

/// The pause between two looks at the port file, in milliseconds.
pub const LAUNCH_PAUSE: u64 = 5;

/// A browser that opened its endpoint.
#[derive(Debug, PartialEq, Eq)]
pub struct Browser {
    /// The address of the endpoint.
    pub ws_url: String,
}

/// The paths where a browser is looked for, in this order.
pub open spec fn usual_places() -> Seq<Seq<char>> {
    seq![
        "/Applications/Google Chrome.app/Contents/MacOS/Google Chrome"@,
        "/Applications/Chromium.app/Contents/MacOS/Chromium"@,
        "/Applications/Microsoft Edge.app/Contents/MacOS/Microsoft Edge"@,
        "/Applications/Brave Browser.app/Contents/MacOS/Brave Browser"@,
        "/usr/bin/google-chrome"@,
        "/usr/bin/chromium"@,
        "/usr/bin/chromium-browser"@,
        "/usr/local/bin/chrome"@,
    ]
}

/// The paths to try, in this order: only the one that was asked for, or else the
/// one that the environment names and then the usual ones.
pub open spec fn places(custom: Option<Seq<char>>, named: Option<Seq<char>>) -> Seq<Seq<char>> {
    match custom {
        Some(path) => seq![path],
        None => match named {
            Some(path) => seq![path] + usual_places(),
            None => usual_places(),
        },
    }
}

/// How far the search for a browser is.
#[derive(Debug, PartialEq, Eq)]
pub enum Search {
    /// The browser is at this path.
    Found(String),
    /// See whether there is something at this path.
    Try(String),
}

/// How far the search for a browser is.
pub enum SearchView {
    Found(Seq<char>),
    Try(Seq<char>),
}

impl View for Search {
    type V = SearchView;

    open spec fn view(&self) -> SearchView {
        match self {
            Search::Found(path) => SearchView::Found(path@),
            Search::Try(path) => SearchView::Try(path@),
        }
    }
}

/// How far the search is, where `answers` tells of the first of the paths whether
/// there is something at them: the first path with something at it is the one.
pub open spec fn search(places: Seq<Seq<char>>, answers: Seq<bool>) -> Option<SearchView>
    decreases places.len(),
{
    if places.len() == 0 {
        None
    } else if answers.len() == 0 {
        Some(SearchView::Try(places[0]))
    } else if answers[0] {
        Some(SearchView::Found(places[0]))
    } else {
        search(places.skip(1), answers.skip(1))
    }
}

/// The failure of a search.
pub open spec fn not_found(custom: Option<Seq<char>>) -> Seq<char> {
    match custom {
        Some(path) => "chrome not found at "@ + path,
        None => "no chrome found; set CHROME_PATH or pass --chrome"@,
    }
}

/// The address in a port file: its first line holds the port and its second the
/// path.
pub open spec fn endpoint(content: Seq<char>) -> Option<Seq<char>> {
    let all = lines(content);
    let port = trim(all[0]);
    let path = trim(all[1]);
    if all.len() >= 2 && port.len() > 0 && path.len() > 0 && path[0] == '/' {
        Some("ws://127.0.0.1:"@ + port + path)
    } else {
        None
    }
}

/// The command line of the browser, behind the name of the program.
pub open spec fn browser_line(user_data_dir: Seq<char>, headless: bool) -> Seq<Seq<char>> {
    let flags = seq![
        "--remote-debugging-port=0"@,
        "--user-data-dir="@ + user_data_dir,
        "--no-first-run"@,
        "--no-default-browser-check"@,
        "--disable-background-networking"@,
        "--disable-background-timer-throttling"@,
        "--disable-backgrounding-occluded-windows"@,
        "--disable-breakpad"@,
        "--disable-component-extensions-with-background-pages"@,
        "--disable-component-update"@,
        "--disable-default-apps"@,
        "--disable-dev-shm-usage"@,
        "--disable-extensions"@,
        "--disable-features=TranslateUI"@,
        "--disable-hang-monitor"@,
        "--disable-ipc-flooding-protection"@,
        "--disable-popup-blocking"@,
        "--disable-prompt-on-repost"@,
        "--disable-renderer-backgrounding"@,
        "--disable-sync"@,
        "--enable-automation"@,
        "--force-color-profile=srgb"@,
        "--metrics-recording-only"@,
        "--mute-audio"@,
        "--no-sandbox"@,
        "--password-store=basic"@,
        "--use-mock-keychain"@,
        "--disable-gpu"@,
        "--disable-software-rasterizer"@,
        "--disable-features=SiteIsolation,site-per-process,IsolateOrigins"@,
        "--disable-blink-features=AutomationControlled"@,
        "--no-zygote"@,
        "--disable-web-security"@,
        "--disable-features=BackForwardCache"@,
        "about:blank"@,
    ];
    if headless {
        seq!["--headless=new"@] + flags
    } else {
        flags
    }
}

/// What was seen of a browser that is starting.
#[derive(Debug, PartialEq, Eq)]
pub enum Seen {
    /// So much time has passed, in nanoseconds.
    Elapsed(u128),
    /// The browser is running.
    Running,
    /// The browser has ended, with this status.
    Exited(String),
    /// The port file holds this, or cannot be read.
    PortFile(Option<String>),
    /// The pause is over.
    Paused,
}

/// What to do while a browser is starting.
#[derive(Debug, PartialEq, Eq)]
pub enum Launch {
    /// Look at the clock.
    CheckClock,
    /// See whether the browser is running.
    CheckProcess,
    /// Read the port file.
    ReadPortFile,
    /// Pause for so many milliseconds.
    Pause(u64),
    /// Nothing more: this browser is ready.
    Ready(Browser),
}

/// What to do while a browser is starting.
pub enum LaunchView {
    CheckClock,
    CheckProcess,
    ReadPortFile,
    Pause(u64),
    Ready(Seq<char>),
}

impl View for Launch {
    type V = LaunchView;

    open spec fn view(&self) -> LaunchView {
        match self {
            Launch::CheckClock => LaunchView::CheckClock,
            Launch::CheckProcess => LaunchView::CheckProcess,
            Launch::ReadPortFile => LaunchView::ReadPortFile,
            Launch::Pause(ms) => LaunchView::Pause(*ms),
            Launch::Ready(browser) => LaunchView::Ready(browser.ws_url@),
        }
    }
}

/// What to do once this was seen.
pub open spec fn launch_step(seen: Seen) -> Result<LaunchView, Seq<char>> {
    match seen {
        Seen::Elapsed(nanos) => if nanos > LAUNCH_LIMIT {
            Err("timed out waiting for chrome DevTools endpoint"@)
        } else {
            Ok(LaunchView::CheckProcess)
        },
        Seen::Running => Ok(LaunchView::ReadPortFile),
        Seen::Exited(status) => Err("chrome exited before ready: "@ + status@),
        Seen::PortFile(content) => match content {
            Some(content) => match endpoint(content@) {
                Some(url) => Ok(LaunchView::Ready(url)),
                None => Ok(LaunchView::Pause(LAUNCH_PAUSE)),
            },
            None => Ok(LaunchView::Pause(LAUNCH_PAUSE)),
        },
        Seen::Paused => Ok(LaunchView::CheckClock),
    }
}

fn places_to_try(custom: Option<&str>, named: Option<&str>) -> (out: Vec<String>)
    ensures
        texts(out@) == places(opt_text(custom), opt_text(named)),
{
    let mut out: Vec<String> = Vec::new();
    match custom {
        Some(path) => {
            out.push(path.to_owned());
        },
        None => {
            match named {
                Some(path) => {
                    out.push(path.to_owned());
                },
                None => {},
            }
            out.push("/Applications/Google Chrome.app/Contents/MacOS/Google Chrome".to_owned());
            out.push("/Applications/Chromium.app/Contents/MacOS/Chromium".to_owned());
            out.push("/Applications/Microsoft Edge.app/Contents/MacOS/Microsoft Edge".to_owned());
            out.push("/Applications/Brave Browser.app/Contents/MacOS/Brave Browser".to_owned());
            out.push("/usr/bin/google-chrome".to_owned());
            out.push("/usr/bin/chromium".to_owned());
            out.push("/usr/bin/chromium-browser".to_owned());
            out.push("/usr/local/bin/chrome".to_owned());
        },
    }
    assert(texts(out@) =~= places(opt_text(custom), opt_text(named)));
    out
}

/// Says where the browser is, or which path to try next, given what was found at
/// the paths before.
pub fn find_chrome(custom: Option<&str>, named: Option<&str>, answers: &Vec<bool>) -> (out: Result<
    Search,
    Error,
>)
    ensures
        match out {
            Ok(found) => search(places(opt_text(custom), opt_text(named)), answers@) == Some(
                found@,
            ),
            Err(error) => {
                &&& search(places(opt_text(custom), opt_text(named)), answers@) is None
                &&& error.text() == not_found(opt_text(custom))
            },
        },
{
    let paths = places_to_try(custom, named);
    let ghost all = texts(paths@);
    let n: usize = paths.len();
    let mut i: usize = 0;
    assert(all.skip(0) =~= all);
    assert(answers@.skip(0) =~= answers@);
    while i < n
        invariant
            n == paths@.len(),
            i <= n,
            i <= answers@.len(),
            all == texts(paths@),
            all == places(opt_text(custom), opt_text(named)),
            search(all, answers@) == search(all.skip(i as int), answers@.skip(i as int)),
        decreases n - i,
    {
        assert(all.skip(i as int)[0] == paths@[i as int]@);
        if i >= answers.len() {
            return Ok(Search::Try(paths[i].clone()));
        }
        if answers[i] {
            return Ok(Search::Found(paths[i].clone()));
        }
        assert(all.skip(i as int).skip(1) =~= all.skip(i + 1));
        assert(answers@.skip(i as int).skip(1) =~= answers@.skip(i + 1));
        i = i + 1;
    }
    match custom {
        Some(path) => Err(Error::ChromeNotFound(path.to_owned())),
        None => Err(Error::NoChrome),
    }
}

/// The name of the directory that holds the profile of the browser that a process
/// starts.
pub fn profile_name(process: u32) -> (out: String)
    ensures
        out@ == "flashwright-"@ + decimal(process as nat),
{
    let number = decimal_text(process as u64);
    joined("flashwright-", number.as_str())
}

/// The command line of the browser, behind the name of the program.
pub fn browser_args(user_data_dir: &str, headless: bool) -> (out: Vec<String>)
    ensures
        texts(out@) == browser_line(user_data_dir@, headless),
{
    let mut out: Vec<String> = Vec::new();
    if headless {
        out.push("--headless=new".to_owned());
    }
    out.push("--remote-debugging-port=0".to_owned());
    out.push(joined("--user-data-dir=", user_data_dir));
    out.push("--no-first-run".to_owned());
    out.push("--no-default-browser-check".to_owned());
    out.push("--disable-background-networking".to_owned());
    out.push("--disable-background-timer-throttling".to_owned());
    out.push("--disable-backgrounding-occluded-windows".to_owned());
    out.push("--disable-breakpad".to_owned());
    out.push("--disable-component-extensions-with-background-pages".to_owned());
    out.push("--disable-component-update".to_owned());
    out.push("--disable-default-apps".to_owned());
    out.push("--disable-dev-shm-usage".to_owned());
    out.push("--disable-extensions".to_owned());
    out.push("--disable-features=TranslateUI".to_owned());
    out.push("--disable-hang-monitor".to_owned());
    out.push("--disable-ipc-flooding-protection".to_owned());
    out.push("--disable-popup-blocking".to_owned());
    out.push("--disable-prompt-on-repost".to_owned());
    out.push("--disable-renderer-backgrounding".to_owned());
    out.push("--disable-sync".to_owned());
    out.push("--enable-automation".to_owned());
    out.push("--force-color-profile=srgb".to_owned());
    out.push("--metrics-recording-only".to_owned());
    out.push("--mute-audio".to_owned());
    out.push("--no-sandbox".to_owned());
    out.push("--password-store=basic".to_owned());
    out.push("--use-mock-keychain".to_owned());
    out.push("--disable-gpu".to_owned());
    out.push("--disable-software-rasterizer".to_owned());
    out.push("--disable-features=SiteIsolation,site-per-process,IsolateOrigins".to_owned());
    out.push("--disable-blink-features=AutomationControlled".to_owned());
    out.push("--no-zygote".to_owned());
    out.push("--disable-web-security".to_owned());
    out.push("--disable-features=BackForwardCache".to_owned());
    out.push("about:blank".to_owned());
    assert(texts(out@) =~= browser_line(user_data_dir@, headless));
    out
}

/// Reads the address in a port file.
pub fn read_endpoint(content: &str) -> (out: Option<String>)
    ensures
        match out {
            Some(url) => endpoint(content@) == Some(url@),
            None => endpoint(content@) is None,
        },
{
    let all = split_lines(content);
    if all.len() < 2 {
        assert(texts(all@).len() < 2);
        return None;
    }
    assert(texts(all@)[0] == all@[0]@ && texts(all@)[1] == all@[1]@);
    let port = trimmed(all[0].as_str());
    let path = trimmed(all[1].as_str());
    let chars = chars_of(path.as_str());
    if port.as_str().is_empty() || chars.len() == 0 || chars[0] != '/' {
        return None;
    }
    let mut url = joined("ws://127.0.0.1:", port.as_str());
    url.append(path.as_str());
    Some(url)
}

impl Browser {
    /// Says what to do while the browser is starting. The start begins with a
    /// look at the clock.
    pub fn launch(seen: Seen) -> (out: Result<Launch, Error>)
        ensures
            match out {
                Ok(next) => launch_step(seen) == Ok::<LaunchView, Seq<char>>(next@),
                Err(error) => launch_step(seen) == Err::<LaunchView, Seq<char>>(error.text()),
            },
    {
        match seen {
            Seen::Elapsed(nanos) => if nanos > LAUNCH_LIMIT {
                Err(Error::EndpointTimeout)
            } else {
                Ok(Launch::CheckProcess)
            },
            Seen::Running => Ok(Launch::ReadPortFile),
            Seen::Exited(status) => Err(Error::ChromeExited(status)),
            Seen::PortFile(content) => match content {
                Some(content) => match read_endpoint(content.as_str()) {
                    Some(ws_url) => Ok(Launch::Ready(Browser { ws_url })),
                    None => Ok(Launch::Pause(LAUNCH_PAUSE)),
                },
                None => Ok(Launch::Pause(LAUNCH_PAUSE)),
            },
            Seen::Paused => Ok(Launch::CheckClock),
        }
    }
}

/// The first path with something at it is the browser.
pub proof fn law_first_path_wins(places: Seq<Seq<char>>, answers: Seq<bool>, k: int)
    requires
        0 <= k < places.len(),
        k < answers.len(),
        answers[k],
        forall|j: int| 0 <= j < k ==> !#[trigger] answers[j],
    ensures
        search(places, answers) == Some(SearchView::Found(places[k])),
    decreases places.len(),
{
    if k > 0 {
        assert(!answers[0]);
        assert forall|j: int| 0 <= j < k - 1 implies !#[trigger] answers.skip(1)[j] by {
            assert(!answers[j + 1]);
        }
        law_first_path_wins(places.skip(1), answers.skip(1), k - 1);
    }
}

/// Paths are tried in their order, one after the other, until something is found.
pub proof fn law_paths_are_tried_in_order(places: Seq<Seq<char>>, answers: Seq<bool>)
    requires
        forall|j: int| 0 <= j < answers.len() ==> !#[trigger] answers[j],
        answers.len() <= places.len(),
    ensures
        search(places, answers) == (if answers.len() < places.len() {
            Some(SearchView::Try(places[answers.len() as int]))
        } else {
            None
        }),
    decreases places.len(),
{
    if answers.len() > 0 {
        assert(!answers[0]);
        assert forall|j: int| 0 <= j < answers.skip(1).len() implies !#[trigger] answers.skip(
            1,
        )[j] by {
            assert(!answers[j + 1]);
        }
        law_paths_are_tried_in_order(places.skip(1), answers.skip(1));
    }
}

/// A path that was asked for is the only one that counts, whatever the environment
/// names.
pub proof fn law_asked_path_is_the_only_one(
    path: Seq<char>,
    named: Option<Seq<char>>,
    answers: Seq<bool>,
)
    requires
        answers.len() > 0,
    ensures
        search(places(Some(path), named), answers) == (if answers[0] {
            Some(SearchView::Found(path))
        } else {
            None
        }),
{
    let all = places(Some(path), named);
    reveal_with_fuel(search, 2);
    assert(all.skip(1) =~= Seq::<Seq<char>>::empty());
}

/// The endpoint of a port and a path is connected to at that port, and asked for
/// that path.
pub proof fn law_endpoint_splits(port: Seq<char>, path: Seq<char>)
    requires
        path.len() > 0,
        path[0] == '/',
        !port.contains('/'),
    ensures
        url_host("ws://127.0.0.1:"@ + port + path) == "127.0.0.1:"@ + port,
        url_path("ws://127.0.0.1:"@ + port + path) == path,
{
    reveal_strlit("ws://127.0.0.1:");
    reveal_strlit("127.0.0.1:");
    reveal_strlit("ws://");
    let url = "ws://127.0.0.1:"@ + port + path;
    assert(url.take(5) =~= "ws://"@);
    let rest = "127.0.0.1:"@ + port + path;
    assert(url.skip(5) =~= rest);
    let host = "127.0.0.1:"@ + port;
    let at = host.len() as int;
    assert forall|i: int| 0 <= i < at implies rest[i] != '/' by {
        if i >= 10 {
            assert(rest[i] == port[i - 10]);
            assert(port.contains(port[i - 10]));
        }
    }
    assert(rest[at] == '/');
    lemma_first_of_is(rest, '/', '/', at);
    assert(rest.take(at) =~= host);
    assert(rest.skip(at) =~= path);
}

} // verus!
