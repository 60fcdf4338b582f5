use vstd::prelude::*;
use vstd::string::*;

use crate::args::ArgMap;
use crate::codec::dec_digits;
use crate::port::{
    CommandDef, CommandModel, ParamDef, ParamModel, PortError, cmd_model, cmd_models_of,
    find_cmd_spec, missing_arg_error, missing_arg_message, unknown_command_error,
    unknown_command_message,
};
use crate::text::{str_eq, u64_to_string};
use crate::value::{PortValue, ValueModel};

verus! {

// ===================================================================
// The clipboard port: get and set the desktop clipboard through the
// session bus. The schema, argument handling and result rendering are
// here; the bus call itself is the application's.
// ===================================================================

/// The clipboard schema: `get` takes nothing, `set` requires `text`.
pub open spec fn spec_schema() -> Seq<CommandModel> {
    seq![
        CommandModel { name: "get"@, params: Seq::empty() },
        CommandModel { name: "set"@, params: seq![ParamModel { name: "text"@, required: true }] },
    ]
}

/// The validated backend request a call resolves to.
#[derive(Debug)]
pub enum ClipboardAction {
    /// Fetch the clipboard text.
    Fetch,
    /// Replace the clipboard text.
    Store { text: String },
}

/// The clipboard port's name.
pub fn port_name() -> (r: &'static str)
    ensures
        r@ == "clipboard"@,
{
    "clipboard"
}

/// The full schema, as command definitions.
pub fn commands() -> (r: Vec<CommandDef>)
    ensures
        cmd_models_of(r@) == spec_schema(),
        r@.len() > 0,
{
    let mut r: Vec<CommandDef> = Vec::new();
    let get_params: Vec<ParamDef> = Vec::new();
    r.push(
        CommandDef {
            name: String::from_str("get"),
            description: String::from_str("Get current clipboard contents from Klipper"),
            params: get_params,
        },
    );
    let mut set_params: Vec<ParamDef> = Vec::new();
    set_params.push(
        ParamDef {
            name: String::from_str("text"),
            description: String::from_str("Text to copy to clipboard"),
            required: true,
        },
    );
    r.push(
        CommandDef {
            name: String::from_str("set"),
            description: String::from_str("Set clipboard contents in Klipper"),
            params: set_params,
        },
    );
    proof {
        assert(cmd_model(r@[0]).params =~= spec_schema()[0].params);
        assert(cmd_model(r@[1]).params =~= spec_schema()[1].params);
        assert(cmd_model(r@[0]) =~~= spec_schema()[0]);
        assert(cmd_model(r@[1]) =~~= spec_schema()[1]);
        assert(cmd_models_of(r@) =~~= spec_schema());
    }
    r
}

/// How a command name resolves against this schema.
proof fn lemma_schema_lookup(cmd: Seq<char>)
    ensures
        cmd == "get"@ ==> find_cmd_spec(spec_schema(), cmd) == Some(spec_schema()[0]),
        cmd == "set"@ ==> find_cmd_spec(spec_schema(), cmd) == Some(spec_schema()[1]),
        cmd != "get"@ && cmd != "set"@ ==> find_cmd_spec(spec_schema(), cmd) is None,
{
    reveal_strlit("get");
    reveal_strlit("set");
    assert("get"@[0] == 'g');
    assert("set"@[0] == 's');
    assert("get"@ != "set"@);
    let s = spec_schema();
    assert(s.drop_first() =~= seq![s[1]]);
    assert(seq![s[1]].drop_first() =~= Seq::<CommandModel>::empty());
    assert(find_cmd_spec(Seq::<CommandModel>::empty(), cmd) is None);
    if cmd != "set"@ {
        assert(find_cmd_spec(seq![s[1]], cmd) is None);
    }
}

/// Resolves a call into a validated backend request: an unknown command
/// or an absent required argument is rejected here, with the offender
/// named; everything else yields the request the backend is to perform.
pub fn plan(cmd: &str, args: &ArgMap) -> (r: Result<ClipboardAction, PortError>)
    ensures
        find_cmd_spec(spec_schema(), cmd@) is None ==> (r matches Err(e) && e.code == -1
            && e.message@ == unknown_command_message(cmd@)),
        find_cmd_spec(spec_schema(), cmd@) is None <==> (cmd@ != "get"@ && cmd@ != "set"@),
        cmd@ == "get"@ ==> (r matches Ok(a) && a matches ClipboardAction::Fetch),
        (cmd@ == "set"@ && args@.contains_key("text"@)) ==> (r matches Ok(a) && (a matches
        ClipboardAction::Store { text } && text@ == args@["text"@])),
        (cmd@ == "set"@ && !args@.contains_key("text"@)) ==> (r matches Err(e) && e.code == -1
            && e.message@ == missing_arg_message("text"@)),
{
    proof {
        lemma_schema_lookup(cmd@);
        reveal_strlit("get");
        reveal_strlit("set");
        assert("get"@[0] == 'g');
        assert("set"@[0] == 's');
        assert("get"@ != "set"@);
    }
    if str_eq(cmd, "get") {
        Ok(ClipboardAction::Fetch)
    } else if str_eq(cmd, "set") {
        match args.get("text") {
            Some(t) => Ok(ClipboardAction::Store { text: t.clone() }),
            None => Err(missing_arg_error("text")),
        }
    } else {
        Err(unknown_command_error(cmd))
    }
}

/// The bus method a request maps to.
pub fn method_name(a: &ClipboardAction) -> (r: &'static str)
    ensures
        a matches ClipboardAction::Fetch ==> r@ == "getClipboardContents"@,
        a matches ClipboardAction::Store { .. } ==> r@ == "setClipboardContents"@,
{
    match a {
        ClipboardAction::Fetch => "getClipboardContents",
        ClipboardAction::Store { .. } => "setClipboardContents",
    }
}

/// What a successful `set` reports: the number of characters written.
pub open spec fn set_ok_message(n: nat) -> Seq<char> {
    "clipboard set ("@ + dec_digits(n) + " chars)"@
}

/// The value a successful call returns: `get` hands the fetched text
/// through; `set` reports how much it wrote.
pub fn render_outcome(a: &ClipboardAction, reply: String) -> (r: PortValue)
    ensures
        a matches ClipboardAction::Fetch ==> r.model() == ValueModel::Str(reply@),
        a matches ClipboardAction::Store { text } ==> r.model() == ValueModel::Str(
            set_ok_message(text@.len()),
        ),
{
    match a {
        ClipboardAction::Fetch => PortValue::Str(reply),
        ClipboardAction::Store { text } => {
            let n = text.as_str().unicode_len();
            let count = u64_to_string(n as u64);
            let msg = String::from_str("clipboard set (").concat(count.as_str()).concat(" chars)");
            PortValue::Str(msg)
        },
    }
}

} // verus!
