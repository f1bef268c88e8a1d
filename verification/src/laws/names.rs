//! The names of commands and options are all different.
use vstd::prelude::*;

verus! {

/// No two commands have one name.
pub proof fn lemma_command_names()
    ensures
        "stop"@ != "navigate"@,
        "stop"@ != "goto"@,
        "stop"@ != "eval"@,
        "stop"@ != "click"@,
        "stop"@ != "type"@,
        "stop"@ != "screenshot"@,
        "stop"@ != "pdf"@,
        "stop"@ != "wait"@,
        "stop"@ != "title"@,
        "stop"@ != "content"@,
        "stop"@ != "viewport"@,
        "stop"@ != "script"@,
        "stop"@ != "serve"@,
        "navigate"@ != "goto"@,
        "navigate"@ != "eval"@,
        "navigate"@ != "click"@,
        "navigate"@ != "type"@,
        "navigate"@ != "screenshot"@,
        "navigate"@ != "pdf"@,
        "navigate"@ != "wait"@,
        "navigate"@ != "title"@,
        "navigate"@ != "content"@,
        "navigate"@ != "viewport"@,
        "navigate"@ != "script"@,
        "navigate"@ != "serve"@,
        "goto"@ != "eval"@,
        "goto"@ != "click"@,
        "goto"@ != "type"@,
        "goto"@ != "screenshot"@,
        "goto"@ != "pdf"@,
        "goto"@ != "wait"@,
        "goto"@ != "title"@,
        "goto"@ != "content"@,
        "goto"@ != "viewport"@,
        "goto"@ != "script"@,
        "goto"@ != "serve"@,
        "eval"@ != "click"@,
        "eval"@ != "type"@,
        "eval"@ != "screenshot"@,
        "eval"@ != "pdf"@,
        "eval"@ != "wait"@,
        "eval"@ != "title"@,
        "eval"@ != "content"@,
        "eval"@ != "viewport"@,
        "eval"@ != "script"@,
        "eval"@ != "serve"@,
        "click"@ != "type"@,
        "click"@ != "screenshot"@,
        "click"@ != "pdf"@,
        "click"@ != "wait"@,
        "click"@ != "title"@,
        "click"@ != "content"@,
        "click"@ != "viewport"@,
        "click"@ != "script"@,
        "click"@ != "serve"@,
        "type"@ != "screenshot"@,
        "type"@ != "pdf"@,
        "type"@ != "wait"@,
        "type"@ != "title"@,
        "type"@ != "content"@,
        "type"@ != "viewport"@,
        "type"@ != "script"@,
        "type"@ != "serve"@,
        "screenshot"@ != "pdf"@,
        "screenshot"@ != "wait"@,
        "screenshot"@ != "title"@,
        "screenshot"@ != "content"@,
        "screenshot"@ != "viewport"@,
        "screenshot"@ != "script"@,
        "screenshot"@ != "serve"@,
        "pdf"@ != "wait"@,
        "pdf"@ != "title"@,
        "pdf"@ != "content"@,
        "pdf"@ != "viewport"@,
        "pdf"@ != "script"@,
        "pdf"@ != "serve"@,
        "wait"@ != "title"@,
        "wait"@ != "content"@,
        "wait"@ != "viewport"@,
        "wait"@ != "script"@,
        "wait"@ != "serve"@,
        "title"@ != "content"@,
        "title"@ != "viewport"@,
        "title"@ != "script"@,
        "title"@ != "serve"@,
        "content"@ != "viewport"@,
        "content"@ != "script"@,
        "content"@ != "serve"@,
        "viewport"@ != "script"@,
        "viewport"@ != "serve"@,
        "script"@ != "serve"@,
{
    reveal_strlit("stop");
    reveal_strlit("navigate");
    reveal_strlit("goto");
    reveal_strlit("eval");
    reveal_strlit("click");
    reveal_strlit("type");
    reveal_strlit("screenshot");
    reveal_strlit("pdf");
    reveal_strlit("wait");
    reveal_strlit("title");
    reveal_strlit("content");
    reveal_strlit("viewport");
    reveal_strlit("script");
    reveal_strlit("serve");
    assert("stop"@.len() == 4);
    assert("navigate"@.len() == 8);
    assert("goto"@.len() == 4);
    assert("eval"@.len() == 4);
    assert("click"@.len() == 5);
    assert("type"@.len() == 4);
    assert("screenshot"@.len() == 10);
    assert("pdf"@.len() == 3);
    assert("wait"@.len() == 4);
    assert("title"@.len() == 5);
    assert("content"@.len() == 7);
    assert("viewport"@.len() == 8);
    assert("script"@.len() == 6);
    assert("serve"@.len() == 5);
    assert("click"@[0] == 'c');
    assert("eval"@[0] == 'e');
    assert("goto"@[0] == 'g');
    assert("navigate"@[0] == 'n');
    assert("serve"@[0] == 's');
    assert("stop"@[0] == 's');
    assert("title"@[0] == 't');
    assert("type"@[0] == 't');
    assert("viewport"@[0] == 'v');
    assert("wait"@[0] == 'w');
}

/// No two options have one name.
pub proof fn lemma_option_names()
    ensures
        "--chrome"@ != "--headed"@,
        "--chrome"@ != "--timeout"@,
        "--chrome"@ != "--viewport"@,
        "--chrome"@ != "--help"@,
        "--chrome"@ != "-h"@,
        "--chrome"@ != "--version"@,
        "--chrome"@ != "-V"@,
        "--headed"@ != "--timeout"@,
        "--headed"@ != "--viewport"@,
        "--headed"@ != "--help"@,
        "--headed"@ != "-h"@,
        "--headed"@ != "--version"@,
        "--headed"@ != "-V"@,
        "--timeout"@ != "--viewport"@,
        "--timeout"@ != "--help"@,
        "--timeout"@ != "-h"@,
        "--timeout"@ != "--version"@,
        "--timeout"@ != "-V"@,
        "--viewport"@ != "--help"@,
        "--viewport"@ != "-h"@,
        "--viewport"@ != "--version"@,
        "--viewport"@ != "-V"@,
        "--help"@ != "-h"@,
        "--help"@ != "--version"@,
        "--help"@ != "-V"@,
        "-h"@ != "--version"@,
        "-h"@ != "-V"@,
        "--version"@ != "-V"@,
{
    reveal_strlit("--chrome");
    reveal_strlit("--headed");
    reveal_strlit("--timeout");
    reveal_strlit("--viewport");
    reveal_strlit("--help");
    reveal_strlit("-h");
    reveal_strlit("--version");
    reveal_strlit("-V");
    assert("--chrome"@.len() == 8);
    assert("--headed"@.len() == 8);
    assert("--timeout"@.len() == 9);
    assert("--viewport"@.len() == 10);
    assert("--help"@.len() == 6);
    assert("-h"@.len() == 2);
    assert("--version"@.len() == 9);
    assert("-V"@.len() == 2);
    assert("--chrome"@[2] == 'c');
    assert("--headed"@[2] == 'h');
    assert("--timeout"@[2] == 't');
    assert("--version"@[2] == 'v');
    assert("-V"@[1] == 'V');
    assert("-h"@[1] == 'h');
}

} // verus!
