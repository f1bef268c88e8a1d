//! Promises on finding and starting the browser.
use vstd::prelude::*;

use crate::browser::browser_line;
use crate::browser::endpoint;
use crate::browser::launch_step;
use crate::browser::not_found;
use crate::browser::places;
use crate::browser::search;
use crate::browser::Browser;
use crate::browser::Launch;
use crate::browser::LaunchView;
use crate::browser::Search;
use crate::browser::SearchView;
use crate::browser::Seen;
use crate::laws::texts::law_lines_are_split_at_newlines;
use crate::text::lines;
use crate::text::trim;

verus! {

/// The paths that are tried: one that was asked for is the only one; one that the
/// environment names comes before the usual ones, which are tried all the same.
pub proof fn law_places_to_try(path: Seq<char>, named: Option<Seq<char>>)
    ensures
        places(Some(path), named) == seq![path],
        places(None, Some(path)) == seq![path] + places(None, None),
        places(None, None) == seq![
            "/Applications/Google Chrome.app/Contents/MacOS/Google Chrome"@,
            "/Applications/Chromium.app/Contents/MacOS/Chromium"@,
            "/Applications/Microsoft Edge.app/Contents/MacOS/Microsoft Edge"@,
            "/Applications/Brave Browser.app/Contents/MacOS/Brave Browser"@,
            "/usr/bin/google-chrome"@,
            "/usr/bin/chromium"@,
            "/usr/bin/chromium-browser"@,
            "/usr/local/bin/chrome"@,
        ],
        not_found(Some(path)) == "chrome not found at "@ + path,
        not_found(None) == "no chrome found; set CHROME_PATH or pass --chrome"@,
{
}

/// The search ends at the first path with something at it, and where there is no
/// path left; until then the next path is tried.
pub proof fn law_search_goes_path_by_path(
    first: Seq<char>,
    more: Seq<Seq<char>>,
    answers: Seq<bool>,
)
    ensures
        search(Seq::empty(), answers) is None,
        search(seq![first] + more, Seq::empty()) == Some(SearchView::Try(first)),
        search(seq![first] + more, seq![true] + answers) == Some(SearchView::Found(first)),
        search(seq![first] + more, seq![false] + answers) == search(more, answers),
{
    let all = seq![first] + more;
    assert(all.skip(1) =~= more);
    assert((seq![false] + answers).skip(1) =~= answers);
}

/// The browser gets these flags and no others, in this order, with the directory of
/// its profile, and without a window where none was asked for.
pub proof fn law_browser_gets_these_flags(dir: Seq<char>)
    ensures
        browser_line(dir, true) == seq!["--headless=new"@] + browser_line(dir, false),
        browser_line(dir, false) == seq![
            "--remote-debugging-port=0"@,
            "--user-data-dir="@ + dir,
            "--no-first-run"@,
            "--no-default-browser-check"@,
            "--disable-background-networking"@,
            "--disable-background-timer-throttling"@,
            "--disable-backgrounding-occluded-windows"@,
            "--disable-breakpad"@,
            "--disable-component-extensions-with-background-pages"@,
            "--disable-component-update"@,
            "--disable-default-apps"@,
            "--disable-dev-shm-usage"@,
            "--disable-extensions"@,
            "--disable-features=TranslateUI"@,
            "--disable-hang-monitor"@,
            "--disable-ipc-flooding-protection"@,
            "--disable-popup-blocking"@,
            "--disable-prompt-on-repost"@,
            "--disable-renderer-backgrounding"@,
            "--disable-sync"@,
            "--enable-automation"@,
            "--force-color-profile=srgb"@,
            "--metrics-recording-only"@,
            "--mute-audio"@,
            "--no-sandbox"@,
            "--password-store=basic"@,
            "--use-mock-keychain"@,
            "--disable-gpu"@,
            "--disable-software-rasterizer"@,
            "--disable-features=SiteIsolation,site-per-process,IsolateOrigins"@,
            "--disable-blink-features=AutomationControlled"@,
            "--no-zygote"@,
            "--disable-web-security"@,
            "--disable-features=BackForwardCache"@,
            "about:blank"@,
        ],
{
}

/// The endpoint is at the port on the first line of the port file, under the path on
/// the second, each without the white space around it; there is none until both
/// lines are there and the path starts with a slash.
pub proof fn law_endpoint_is_on_two_lines(port: Seq<char>, path: Seq<char>, rest: Seq<char>)
    requires
        !port.contains('\n'),
        !path.contains('\n'),
        port.len() > 0 ==> port.last() != '\r',
        path.len() > 0 ==> path.last() != '\r',
    ensures
        ({
            let found = if trim(port).len() > 0 && trim(path).len() > 0 && trim(path)[0] == '/' {
                Some("ws://127.0.0.1:"@ + trim(port) + trim(path))
            } else {
                None
            };
            &&& endpoint(port + seq!['\n'] + (path + seq!['\n'] + rest)) == found
            &&& path.len() > 0 ==> endpoint(port + seq!['\n'] + path) == found
        }),
        endpoint(port) is None,
        endpoint(port + seq!['\n']) is None,
{
    let second = path + seq!['\n'] + rest;
    law_lines_are_split_at_newlines(path, rest);
    law_lines_are_split_at_newlines(port, second);
    let a = lines(port + seq!['\n'] + second);
    assert(a == seq![port] + (seq![path] + lines(rest)));
    assert(a[0] == port && a[1] == path);
    law_lines_are_split_at_newlines(port, path);
    if path.len() > 0 {
        let b = lines(port + seq!['\n'] + path);
        assert(b == seq![port] + seq![path]);
        assert(b[0] == port && b[1] == path);
    }
    let none = Seq::<char>::empty();
    law_lines_are_split_at_newlines(port, none);
    assert(port + seq!['\n'] + none =~= port + seq!['\n']);
    assert(lines(port + seq!['\n']).len() == 1);
    assert(port.len() == 0 ==> port =~= none);
    assert(lines(port).len() <= 1);
}

/// Of a port file the first two lines count, whatever else it holds.
pub proof fn law_endpoint_is_on_the_first_two_lines(content: Seq<char>, other: Seq<char>)
    requires
        lines(content).len() >= 2,
        lines(other).len() >= 2,
        lines(content)[0] == lines(other)[0],
        lines(content)[1] == lines(other)[1],
    ensures
        endpoint(content) == endpoint(other),
        endpoint(content) == (if trim(lines(content)[0]).len() > 0 && trim(
            lines(content)[1],
        ).len() > 0 && trim(lines(content)[1])[0] == '/' {
            Some("ws://127.0.0.1:"@ + trim(lines(content)[0]) + trim(lines(content)[1]))
        } else {
            None
        }),
{
}

/// A start goes round the clock, the process and the port file, with pauses of five
/// milliseconds, until the endpoint is there, the browser has ended or thirty
/// seconds have passed.
pub proof fn law_launch_steps(nanos: u128, status: String, content: String)
    ensures
        launch_step(Seen::Elapsed(nanos)) == (if nanos > 30_000_000_000 {
            Err("timed out waiting for chrome DevTools endpoint"@)
        } else {
            Ok(LaunchView::CheckProcess)
        }),
        launch_step(Seen::Running) == Ok::<LaunchView, Seq<char>>(LaunchView::ReadPortFile),
        launch_step(Seen::Exited(status)) == Err::<LaunchView, Seq<char>>(
            "chrome exited before ready: "@ + status@,
        ),
        launch_step(Seen::PortFile(None)) == Ok::<LaunchView, Seq<char>>(LaunchView::Pause(5)),
        launch_step(Seen::PortFile(Some(content))) == Ok::<LaunchView, Seq<char>>(
            match endpoint(content@) {
                Some(url) => LaunchView::Ready(url),
                None => LaunchView::Pause(5),
            },
        ),
        launch_step(Seen::Paused) == Ok::<LaunchView, Seq<char>>(LaunchView::CheckClock),
{
}

/// What to do for the browser is seen as it is.
pub proof fn law_launch_is_seen_as_it_is(path: String, ms: u64, browser: Browser)
    ensures
        Search::Found(path)@ == SearchView::Found(path@),
        Search::Try(path)@ == SearchView::Try(path@),
        Launch::CheckClock@ == LaunchView::CheckClock,
        Launch::CheckProcess@ == LaunchView::CheckProcess,
        Launch::ReadPortFile@ == LaunchView::ReadPortFile,
        Launch::Pause(ms)@ == LaunchView::Pause(ms),
        Launch::Ready(browser)@ == LaunchView::Ready(browser.ws_url@),
{
}

} // verus!
