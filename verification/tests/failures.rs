use flashwright::error::Error;

#[test]
fn failures_are_told() {
    let s = |text: &str| text.to_string();
    let cases = vec![
        (Error::ChromeNotFound(s("/c")), "chrome not found at /c"),
        (Error::NoChrome, "no chrome found; set CHROME_PATH or pass --chrome"),
        (Error::EndpointTimeout, "timed out waiting for chrome DevTools endpoint"),
        (Error::ChromeExited(s("signal: 9")), "chrome exited before ready: signal: 9"),
        (Error::NoCommand, "no command specified"),
        (Error::DaemonNotStarted, "daemon failed to start"),
        (Error::HandshakeFailed, "websocket handshake failed"),
        (Error::WebsocketClosed, "websocket closed"),
        (Error::TransportClosed, "transport closed"),
        (Error::CommandTimedOut, "command timed out"),
        (Error::BatchTimedOut, "batch command timed out"),
        (Error::ReplyLost, "channel closed"),
        (Error::Refused(s("M"), s("{}")), "CDP error on M: {}"),
        (Error::BatchRefused(s("{}")), "CDP batch error: {}"),
        (Error::Evaluation(s("1")), "eval error: 1"),
        (Error::NoEvalResult, "no eval result"),
        (Error::ElementNotFound, "element not found or not visible"),
        (Error::NoScreenshotData, "no screenshot data"),
        (Error::NoPdfData, "no pdf data"),
        (Error::SelectorTimeout(s("#a")), "timeout waiting for selector #a"),
        (Error::NoViewport, "no viewport specified"),
        (Error::UnknownCommand(s("x")), "unknown command: x"),
        (Error::EmptyLine, "empty line"),
        (Error::MissingArguments(12), "expected 12 argument(s)"),
        (Error::ExpectedSize, "expected WxH"),
        (Error::Daemon(s("\"x\"")), "\"x\""),
        (Error::Other(s("y")), "y"),
    ];
    for (error, text) in cases {
        assert_eq!(error.message(), text);
    }
}
