use appmesh::args::ArgMap;
use appmesh::boundary::encode_result;
use appmesh::codec::encode_value;
use appmesh::port::{AppMeshPort, CommandDef, FixedPort, ParamDef};
use appmesh::ports::clipboard;
use appmesh::registry::{kind_name, port_names, resolve_port};
use appmesh::value::PortValue;

fn zero_arg_command(name: &str) -> CommandDef {
    CommandDef {
        name: String::from(name),
        description: String::from("a test command"),
        params: vec![],
    }
}

#[test]
fn unknown_port_fails_with_the_offending_name() {
    let e = resolve_port("nonexistent").expect_err("unknown names are rejected");
    assert_eq!(e.code, -1);
    assert_eq!(e.message, "unknown port 'nonexistent'");
    assert!(e.message.contains("nonexistent"));
}

#[test]
fn every_registered_name_resolves() {
    for name in port_names() {
        let kind = resolve_port(name.as_str()).expect("registered names resolve");
        assert_eq!(kind_name(kind), name.as_str());
    }
}

#[test]
fn registry_names_are_fixed_and_ordered() {
    let names = port_names();
    assert_eq!(
        names,
        vec!["clipboard", "input", "mail", "notify", "screenshot", "windows"]
    );
}

#[test]
fn missing_required_argument_names_the_parameter() {
    let args = ArgMap::new();
    let e = clipboard::plan("set", &args).expect_err("set without text is rejected");
    assert_eq!(e.message, "missing 'text' argument");
    assert!(e.message.contains("text"));
}

#[test]
fn fixed_port_round_trip_reaches_the_boundary_text() {
    let mut port = FixedPort::new(
        String::from("fake"),
        zero_arg_command("ping"),
        vec![],
        vec![(String::from("ping"), PortValue::Str(String::from("ok-value")))],
    );
    let args = ArgMap::new();
    let r = port.execute("ping", &args);
    match &r {
        Ok(v) => assert_eq!(encode_value(v), "\"ok-value\""),
        Err(_) => panic!("a zero-argument command with a reply succeeds"),
    }
    assert_eq!(encode_result(&r), "{\"ok\":\"ok-value\"}");
}

#[test]
fn fixed_port_rejects_unknown_commands() {
    let mut port = FixedPort::new(String::from("fake"), zero_arg_command("ping"), vec![], vec![]);
    let args = ArgMap::new();
    let e = port.execute("bogus", &args).expect_err("unknown commands are rejected");
    assert_eq!(e.message, "unknown command: bogus");
}

#[test]
fn fixed_port_checks_required_parameters() {
    let need_text = CommandDef {
        name: String::from("set"),
        description: String::from("store text"),
        params: vec![ParamDef {
            name: String::from("text"),
            description: String::from("what to store"),
            required: true,
        }],
    };
    let mut port = FixedPort::new(String::from("fake"), need_text, vec![], vec![]);
    let args = ArgMap::new();
    let e = port.execute("set", &args).expect_err("a missing required argument is rejected");
    assert_eq!(e.message, "missing 'text' argument");
    let mut with_arg = ArgMap::new();
    with_arg.insert(String::from("text"), String::from("hi"));
    assert!(port.execute("set", &with_arg).is_ok());
}

#[test]
fn sequential_commands_complete_in_issue_order() {
    let mut port = FixedPort::new(
        String::from("fake"),
        zero_arg_command("A"),
        vec![zero_arg_command("B")],
        vec![],
    );
    let args = ArgMap::new();
    port.execute("A", &args).expect("A succeeds");
    port.execute("B", &args).expect("B succeeds");
    assert_eq!(port.executed_count(), 2);
    assert_eq!(port.executed_at(0), "A");
    assert_eq!(port.executed_at(1), "B");
}

#[test]
fn fixed_port_schema_is_nonempty_and_stable() {
    let port = FixedPort::new(
        String::from("fake"),
        zero_arg_command("ping"),
        vec![zero_arg_command("pong")],
        vec![],
    );
    let a = port.commands();
    let b = port.commands();
    assert!(!a.is_empty());
    assert_eq!(a.len(), b.len());
    for (x, y) in a.iter().zip(b.iter()) {
        assert_eq!(x.name, y.name);
        assert_eq!(x.params.len(), y.params.len());
    }
    assert_eq!(port.name(), "fake");
}

#[test]
fn failed_commands_leave_no_log_entry() {
    let mut port = FixedPort::new(String::from("fake"), zero_arg_command("A"), vec![], vec![]);
    let args = ArgMap::new();
    let _ = port.execute("unknown-cmd", &args);
    assert_eq!(port.executed_count(), 0);
}

#[test]
fn bare_tokens_bind_to_the_first_parameter() {
    let cmds = appmesh::ports::clipboard::commands();
    let mut args = ArgMap::new();
    appmesh::port::resolve_bare_arg(&cmds, "set", String::from("hello"), &mut args);
    assert_eq!(args.get("text").map(|s| s.as_str()), Some("hello"));
    let mut args = ArgMap::new();
    appmesh::port::resolve_bare_arg(&cmds, "get", String::from("dropped"), &mut args);
    assert!(args.get("text").is_none());
    let mut args = ArgMap::new();
    appmesh::port::resolve_bare_arg(&cmds, "bogus", String::from("dropped"), &mut args);
    assert!(args.get("text").is_none());
}
