use vstd::prelude::*;
use vstd::string::*;

use crate::args::ArgMap;
use crate::codec::dec_digits;
use crate::port::{
    CommandDef, CommandModel, ParamDef, ParamModel, PortError, cmd_model, cmd_models_of,
    find_cmd_spec, invalid_arg_error, invalid_arg_message, missing_arg_error, missing_arg_message,
    unknown_command_error, unknown_command_message,
};
use crate::text::{parse_i32, parse_i32_spec, str_eq, u64_to_string};
use crate::value::{PortValue, ValueModel};

verus! {

// ===================================================================
// The notification port: desktop notifications over the session bus.
// The schema, argument handling, defaults and result rendering are
// here; the bus call itself is the application's.
// ===================================================================

/// The notification schema: `send` requires `title` and takes an
/// optional body, icon, and timeout.
pub open spec fn spec_schema() -> Seq<CommandModel> {
    seq![
        CommandModel {
            name: "send"@,
            params: seq![
                ParamModel { name: "title"@, required: true },
                ParamModel { name: "body"@, required: false },
                ParamModel { name: "icon"@, required: false },
                ParamModel { name: "timeout"@, required: false },
            ],
        },
    ]
}

/// The validated backend request a call resolves to.
#[derive(Debug)]
pub enum NotifyAction {
    /// Post one notification.
    SendNote { title: String, body: String, icon: String, timeout_ms: i32 },
}

/// The body a call asks for: empty where none is given.
pub open spec fn spec_body(args: Map<Seq<char>, Seq<char>>) -> Seq<char> {
    if args.contains_key("body"@) {
        args["body"@]
    } else {
        ""@
    }
}

/// The icon a call asks for: an informational default where none is
/// given.
pub open spec fn spec_icon(args: Map<Seq<char>, Seq<char>>) -> Seq<char> {
    if args.contains_key("icon"@) {
        args["icon"@]
    } else {
        "dialog-information"@
    }
}

/// Whether a `timeout` argument is present but malformed: such a call
/// is rejected with an error naming the parameter.
pub open spec fn timeout_bad(args: Map<Seq<char>, Seq<char>>) -> bool {
    args.contains_key("timeout"@) && parse_i32_spec(args["timeout"@]) is None
}

/// The timeout a well-formed call asks for: the parsed `timeout`
/// argument, or, where none is given, the server default, signalled as
/// a negative value.
pub open spec fn spec_timeout(args: Map<Seq<char>, Seq<char>>) -> i32 {
    if args.contains_key("timeout"@) {
        match parse_i32_spec(args["timeout"@]) {
            Some(v) => v,
            None => -1i32,
        }
    } else {
        -1i32
    }
}

/// The notification port's name.
pub fn port_name() -> (r: &'static str)
    ensures
        r@ == "notify"@,
{
    "notify"
}

/// The full schema, as command definitions.
pub fn commands() -> (r: Vec<CommandDef>)
    ensures
        cmd_models_of(r@) == spec_schema(),
        r@.len() > 0,
{
    let mut params: Vec<ParamDef> = Vec::new();
    params.push(
        ParamDef {
            name: String::from_str("title"),
            description: String::from_str("Notification title"),
            required: true,
        },
    );
    params.push(
        ParamDef {
            name: String::from_str("body"),
            description: String::from_str("Notification body text"),
            required: false,
        },
    );
    params.push(
        ParamDef {
            name: String::from_str("icon"),
            description: String::from_str("Icon name (e.g. dialog-information)"),
            required: false,
        },
    );
    params.push(
        ParamDef {
            name: String::from_str("timeout"),
            description: String::from_str("Timeout in ms (-1=server default, 0=never)"),
            required: false,
        },
    );
    let mut r: Vec<CommandDef> = Vec::new();
    r.push(
        CommandDef {
            name: String::from_str("send"),
            description: String::from_str("Send a desktop notification"),
            params,
        },
    );
    proof {
        assert(cmd_model(r@[0]).params =~= spec_schema()[0].params);
        assert(cmd_model(r@[0]) =~~= spec_schema()[0]);
        assert(cmd_models_of(r@) =~~= spec_schema());
    }
    r
}

/// How a command name resolves against this schema.
proof fn lemma_schema_lookup(cmd: Seq<char>)
    ensures
        cmd == "send"@ ==> find_cmd_spec(spec_schema(), cmd) == Some(spec_schema()[0]),
        cmd != "send"@ ==> find_cmd_spec(spec_schema(), cmd) is None,
{
    let s = spec_schema();
    assert(s.drop_first() =~= Seq::<CommandModel>::empty());
    assert(find_cmd_spec(Seq::<CommandModel>::empty(), cmd) is None);
}

/// Resolves a call into a validated backend request, filling the
/// documented defaults for absent optional arguments; a malformed
/// timeout is rejected with an error naming it.
pub fn plan(cmd: &str, args: &ArgMap) -> (r: Result<NotifyAction, PortError>)
    ensures
        find_cmd_spec(spec_schema(), cmd@) is None ==> (r matches Err(e) && e.code == -1
            && e.message@ == unknown_command_message(cmd@)),
        find_cmd_spec(spec_schema(), cmd@) is None <==> cmd@ != "send"@,
        (cmd@ == "send"@ && args@.contains_key("title"@) && !timeout_bad(args@)) ==> (r matches
        Ok(a) && (a matches NotifyAction::SendNote { title, body, icon, timeout_ms } && title@
            == args@["title"@] && body@ == spec_body(args@) && icon@ == spec_icon(args@)
            && timeout_ms == spec_timeout(args@))),
        (cmd@ == "send"@ && !args@.contains_key("title"@)) ==> (r matches Err(e) && e.code == -1
            && e.message@ == missing_arg_message("title"@)),
        (cmd@ == "send"@ && args@.contains_key("title"@) && timeout_bad(args@)) ==> (r matches
        Err(e) && e.code == -1 && e.message@ == invalid_arg_message("timeout"@)),
{
    proof {
        lemma_schema_lookup(cmd@);
    }
    if str_eq(cmd, "send") {
        match args.get("title") {
            Some(t) => {
                let title = t.clone();
                let body = match args.get("body") {
                    Some(b) => b.clone(),
                    None => String::from_str(""),
                };
                let icon = match args.get("icon") {
                    Some(i) => i.clone(),
                    None => String::from_str("dialog-information"),
                };
                let timeout_ms = match args.get("timeout") {
                    Some(s) => match parse_i32(s.as_str()) {
                        Some(v) => v,
                        None => {
                            return Err(invalid_arg_error("timeout"));
                        },
                    },
                    None => -1,
                };
                Ok(NotifyAction::SendNote { title, body, icon, timeout_ms })
            },
            None => Err(missing_arg_error("title")),
        }
    } else {
        Err(unknown_command_error(cmd))
    }
}

/// What a successful `send` reports: the notification id the server
/// assigned.
pub open spec fn notify_ok_message(id: nat) -> Seq<char> {
    "notification sent (id: "@ + dec_digits(id) + ")"@
}

/// The value a successful notification returns, from the id the server
/// replied with.
pub fn render_outcome(id: u32) -> (r: PortValue)
    ensures
        r.model() == ValueModel::Str(notify_ok_message(id as nat)),
{
    let num = u64_to_string(id as u64);
    PortValue::Str(String::from_str("notification sent (id: ").concat(num.as_str()).concat(")"))
}

} // verus!
