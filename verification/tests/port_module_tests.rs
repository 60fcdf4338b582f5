use appmesh::args::ArgMap;
use appmesh::codec::encode_value;
use appmesh::ports::{clipboard, input, notify, screenshot, windows};

fn args_of(pairs: &[(&str, &str)]) -> ArgMap {
    let mut m = ArgMap::new();
    for (k, v) in pairs {
        m.insert(String::from(*k), String::from(*v));
    }
    m
}

#[test]
fn clipboard_schema_and_methods() {
    let cmds = clipboard::commands();
    assert_eq!(cmds.len(), 2);
    assert_eq!(cmds[0].name, "get");
    assert_eq!(cmds[1].name, "set");
    assert!(cmds[1].params[0].required);
    let a = clipboard::plan("get", &ArgMap::new()).expect("get takes nothing");
    assert_eq!(clipboard::method_name(&a), "getClipboardContents");
    let a = clipboard::plan("set", &args_of(&[("text", "hi")])).expect("set with text");
    assert_eq!(clipboard::method_name(&a), "setClipboardContents");
    let out = clipboard::render_outcome(&a, String::new());
    assert_eq!(encode_value(&out), "\"clipboard set (2 chars)\"");
    let fetched = clipboard::plan("get", &ArgMap::new()).expect("get");
    let out = clipboard::render_outcome(&fetched, String::from("stored"));
    assert_eq!(encode_value(&out), "\"stored\"");
    let e = clipboard::plan("paste", &ArgMap::new()).expect_err("unknown command");
    assert_eq!(e.message, "unknown command: paste");
}

#[test]
fn input_plans_and_messages() {
    let a = input::plan("type_text", &args_of(&[("text", "hello")])).expect("typed");
    match &a {
        appmesh::ports::input::InputAction::TypeText { text, delay_us } => {
            assert_eq!(text, "hello");
            assert_eq!(*delay_us, 5000);
        },
        _ => panic!("expected a typing request"),
    }
    let out = input::render_outcome(&a);
    assert_eq!(encode_value(&out), "\"typed 5 characters\"");
    let a = input::plan("send_key", &args_of(&[("combo", "ctrl+v"), ("delay_us", "250")]))
        .expect("combo");
    match &a {
        appmesh::ports::input::InputAction::SendKey { combo, delay_us } => {
            assert_eq!(combo, "ctrl+v");
            assert_eq!(*delay_us, 250);
        },
        _ => panic!("expected a key request"),
    }
    let out = input::render_outcome(&a);
    assert_eq!(encode_value(&out), "\"sent key combo: ctrl+v\"");
    let e = input::plan("type_text", &ArgMap::new()).expect_err("text is required");
    assert_eq!(e.message, "missing 'text' argument");
    let e = input::plan("send_key", &ArgMap::new()).expect_err("combo is required");
    assert_eq!(e.message, "missing 'combo' argument");
    let e = input::plan("type_text", &args_of(&[("text", "x"), ("delay_us", "bogus")]))
        .expect_err("a malformed delay is rejected");
    assert_eq!(e.message, "invalid 'delay_us' argument");
    let e = input::plan("send_key", &args_of(&[("combo", "a"), ("delay_us", "-5")]))
        .expect_err("a malformed delay is rejected");
    assert_eq!(e.message, "invalid 'delay_us' argument");
}

#[test]
fn notify_defaults_and_message() {
    let a = notify::plan("send", &args_of(&[("title", "Hi")])).expect("title only");
    match &a {
        appmesh::ports::notify::NotifyAction::SendNote { title, body, icon, timeout_ms } => {
            assert_eq!(title, "Hi");
            assert_eq!(body, "");
            assert_eq!(icon, "dialog-information");
            assert_eq!(*timeout_ms, -1);
        },
    }
    let a = notify::plan(
        "send",
        &args_of(&[("title", "T"), ("body", "B"), ("icon", "face"), ("timeout", "0")]),
    )
    .expect("all given");
    match &a {
        appmesh::ports::notify::NotifyAction::SendNote { body, icon, timeout_ms, .. } => {
            assert_eq!(body, "B");
            assert_eq!(icon, "face");
            assert_eq!(*timeout_ms, 0);
        },
    }
    let e = notify::plan("send", &ArgMap::new()).expect_err("title is required");
    assert_eq!(e.message, "missing 'title' argument");
    let e = notify::plan("send", &args_of(&[("title", "T"), ("timeout", "soon")]))
        .expect_err("a malformed timeout is rejected");
    assert_eq!(e.message, "invalid 'timeout' argument");
    let out = notify::render_outcome(41);
    assert_eq!(encode_value(&out), "\"notification sent (id: 41)\"");
}

#[test]
fn screenshot_modes_and_paths() {
    let port = screenshot::ScreenshotPort::new().expect("construction always succeeds");
    assert_eq!(port.name(), "screenshot");
    assert_eq!(port.commands().len(), 1);
    let a = screenshot::plan("take", &ArgMap::new()).expect("mode optional");
    match &a {
        screenshot::ScreenshotAction::Take { flag } => assert_eq!(flag, "-f"),
    }
    let a = screenshot::plan("take", &args_of(&[("mode", "activewindow")])).expect("window");
    match &a {
        screenshot::ScreenshotAction::Take { flag } => assert_eq!(flag, "-a"),
    }
    let a = screenshot::plan("take", &args_of(&[("mode", "region")])).expect("region");
    match &a {
        screenshot::ScreenshotAction::Take { flag } => assert_eq!(flag, "-r"),
    }
    let a = screenshot::plan("take", &args_of(&[("mode", "whatever")])).expect("fallback");
    match &a {
        screenshot::ScreenshotAction::Take { flag } => assert_eq!(flag, "-f"),
    }
    assert_eq!(
        screenshot::output_path(1000, 1234),
        "/run/user/1000/appmesh/screenshot_1234.png"
    );
    assert_eq!(screenshot::output_dir(0), "/run/user/0/appmesh");
    let out = screenshot::render_outcome("/some/file.png", true);
    assert_eq!(encode_value(&out), "\"/some/file.png\"");
    let out = screenshot::render_outcome("/some/file.png", false);
    assert_eq!(encode_value(&out), "\"screenshot may be at: /some/file.png\"");
}

#[test]
fn windows_plans_scripts_and_ids() {
    let a = windows::plan("list", &ArgMap::new()).expect("list takes nothing");
    let out = windows::render_outcome(&a, String::from("line1\nline2"));
    assert_eq!(encode_value(&out), "\"line1\\nline2\"");
    let a = windows::plan("activate", &args_of(&[("id", "0x1a")])).expect("activate with id");
    let out = windows::render_outcome(&a, String::new());
    assert_eq!(encode_value(&out), "\"activated window: 0x1a\"");
    let e = windows::plan("activate", &ArgMap::new()).expect_err("id required");
    assert_eq!(e.message, "missing 'id' argument");
    assert!(windows::is_numeric_id("0x12"));
    assert!(!windows::is_numeric_id("0x1A2"));
    assert!(windows::is_numeric_id("12345"));
    assert!(!windows::is_numeric_id("uuid-like"));
    assert_eq!(
        windows::activation_script("ab\"c"),
        "workspace.windowList().find(w => w.internalId.toString() === \"ab\\\"c\")?.activate();"
    );
    assert_eq!(
        windows::script_path(321, 99),
        "/tmp/appmesh_kwin_321_99.js"
    );
}
