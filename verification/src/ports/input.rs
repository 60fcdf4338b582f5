use vstd::prelude::*;
use vstd::string::*;

use crate::args::ArgMap;
use crate::codec::dec_digits;
use crate::port::{
    CommandDef, CommandModel, ParamDef, ParamModel, PortError, cmd_model, cmd_models_of,
    find_cmd_spec, invalid_arg_error, invalid_arg_message, missing_arg_error, missing_arg_message,
    unknown_command_error, unknown_command_message,
};
use crate::text::{parse_u64, parse_u64_spec, str_eq, u64_to_string};
use crate::value::{PortValue, ValueModel};

verus! {

// ===================================================================
// The input port: keyboard injection into the focused window. The
// schema, argument handling and result rendering are here; driving the
// injection protocol is the application's.
// ===================================================================

/// The input schema: `type_text` requires `text`, `send_key` requires
/// `combo`; both take an optional inter-event delay.
pub open spec fn spec_schema() -> Seq<CommandModel> {
    seq![
        CommandModel {
            name: "type_text"@,
            params: seq![
                ParamModel { name: "text"@, required: true },
                ParamModel { name: "delay_us"@, required: false },
            ],
        },
        CommandModel {
            name: "send_key"@,
            params: seq![
                ParamModel { name: "combo"@, required: true },
                ParamModel { name: "delay_us"@, required: false },
            ],
        },
    ]
}

/// The validated backend request a call resolves to.
#[derive(Debug)]
pub enum InputAction {
    /// Type the text, one key event at a time.
    TypeText { text: String, delay_us: u64 },
    /// Send one key combination.
    SendKey { combo: String, delay_us: u64 },
}

/// Whether a `delay_us` argument is present but malformed: such a call
/// is rejected with an error naming the parameter.
pub open spec fn delay_bad(args: Map<Seq<char>, Seq<char>>) -> bool {
    args.contains_key("delay_us"@) && parse_u64_spec(args["delay_us"@]) is None
}

/// The inter-event delay a well-formed call asks for: the parsed
/// `delay_us` argument, five milliseconds where none is given.
pub open spec fn spec_delay(args: Map<Seq<char>, Seq<char>>) -> u64 {
    if args.contains_key("delay_us"@) {
        match parse_u64_spec(args["delay_us"@]) {
            Some(v) => v,
            None => 5000u64,
        }
    } else {
        5000u64
    }
}

/// Reads the inter-event delay out of the arguments; a malformed one is
/// rejected with an error naming it.
pub fn delay_from(args: &ArgMap) -> (r: Result<u64, PortError>)
    ensures
        match r {
            Ok(v) => !delay_bad(args@) && v == spec_delay(args@),
            Err(e) => delay_bad(args@) && e.code == -1 && e.message@ == invalid_arg_message(
                "delay_us"@,
            ),
        },
{
    match args.get("delay_us") {
        Some(s) => match parse_u64(s.as_str()) {
            Some(v) => Ok(v),
            None => Err(invalid_arg_error("delay_us")),
        },
        None => Ok(5000),
    }
}

/// The input port's name.
pub fn port_name() -> (r: &'static str)
    ensures
        r@ == "input"@,
{
    "input"
}

/// The full schema, as command definitions.
pub fn commands() -> (r: Vec<CommandDef>)
    ensures
        cmd_models_of(r@) == spec_schema(),
        r@.len() > 0,
{
    let mut tt_params: Vec<ParamDef> = Vec::new();
    tt_params.push(
        ParamDef {
            name: String::from_str("text"),
            description: String::from_str("Text to type"),
            required: true,
        },
    );
    tt_params.push(
        ParamDef {
            name: String::from_str("delay_us"),
            description: String::from_str("Inter-key delay in microseconds"),
            required: false,
        },
    );
    let mut sk_params: Vec<ParamDef> = Vec::new();
    sk_params.push(
        ParamDef {
            name: String::from_str("combo"),
            description: String::from_str("Key combo string"),
            required: true,
        },
    );
    sk_params.push(
        ParamDef {
            name: String::from_str("delay_us"),
            description: String::from_str("Inter-key delay in microseconds"),
            required: false,
        },
    );
    let mut r: Vec<CommandDef> = Vec::new();
    r.push(
        CommandDef {
            name: String::from_str("type_text"),
            description: String::from_str("Type text into the focused window"),
            params: tt_params,
        },
    );
    r.push(
        CommandDef {
            name: String::from_str("send_key"),
            description: String::from_str("Send a key combo (e.g. ctrl+v, enter)"),
            params: sk_params,
        },
    );
    proof {
        assert(cmd_model(r@[0]).params =~= spec_schema()[0].params);
        assert(cmd_model(r@[1]).params =~= spec_schema()[1].params);
        assert(cmd_model(r@[0]) =~~= spec_schema()[0]);
        assert(cmd_model(r@[1]) =~~= spec_schema()[1]);
        assert(cmd_models_of(r@) =~~= spec_schema());
    }
    r
}

/// How a command name resolves against this schema.
proof fn lemma_schema_lookup(cmd: Seq<char>)
    ensures
        cmd == "type_text"@ ==> find_cmd_spec(spec_schema(), cmd) == Some(spec_schema()[0]),
        cmd == "send_key"@ ==> find_cmd_spec(spec_schema(), cmd) == Some(spec_schema()[1]),
        cmd != "type_text"@ && cmd != "send_key"@ ==> find_cmd_spec(spec_schema(), cmd) is None,
{
    reveal_strlit("type_text");
    reveal_strlit("send_key");
    assert("type_text"@.len() == 9 && "send_key"@.len() == 8);
    let s = spec_schema();
    assert(s.drop_first() =~= seq![s[1]]);
    assert(seq![s[1]].drop_first() =~= Seq::<CommandModel>::empty());
    assert(find_cmd_spec(Seq::<CommandModel>::empty(), cmd) is None);
    if cmd != "send_key"@ {
        assert(find_cmd_spec(seq![s[1]], cmd) is None);
    }
}

/// Resolves a call into a validated backend request: an unknown command,
/// an absent required argument or a malformed delay is rejected here,
/// with the offender named; everything else yields the injection request
/// with its text or combo and the delay to pace it by.
pub fn plan(cmd: &str, args: &ArgMap) -> (r: Result<InputAction, PortError>)
    ensures
        find_cmd_spec(spec_schema(), cmd@) is None ==> (r matches Err(e) && e.code == -1
            && e.message@ == unknown_command_message(cmd@)),
        find_cmd_spec(spec_schema(), cmd@) is None <==> (cmd@ != "type_text"@ && cmd@
            != "send_key"@),
        (cmd@ == "type_text"@ && args@.contains_key("text"@) && !delay_bad(args@)) ==> (r matches
        Ok(a) && (a matches InputAction::TypeText { text, delay_us } && text@ == args@["text"@]
            && delay_us == spec_delay(args@))),
        (cmd@ == "type_text"@ && !args@.contains_key("text"@)) ==> (r matches Err(e) && e.code
            == -1 && e.message@ == missing_arg_message("text"@)),
        (cmd@ == "type_text"@ && args@.contains_key("text"@) && delay_bad(args@)) ==> (r matches
        Err(e) && e.code == -1 && e.message@ == invalid_arg_message("delay_us"@)),
        (cmd@ == "send_key"@ && args@.contains_key("combo"@) && !delay_bad(args@)) ==> (r matches
        Ok(a) && (a matches InputAction::SendKey { combo, delay_us } && combo@ == args@["combo"@]
            && delay_us == spec_delay(args@))),
        (cmd@ == "send_key"@ && !args@.contains_key("combo"@)) ==> (r matches Err(e) && e.code
            == -1 && e.message@ == missing_arg_message("combo"@)),
        (cmd@ == "send_key"@ && args@.contains_key("combo"@) && delay_bad(args@)) ==> (r matches
        Err(e) && e.code == -1 && e.message@ == invalid_arg_message("delay_us"@)),
{
    proof {
        lemma_schema_lookup(cmd@);
        reveal_strlit("type_text");
        reveal_strlit("send_key");
        assert("type_text"@.len() == 9 && "send_key"@.len() == 8);
    }
    if str_eq(cmd, "type_text") {
        match args.get("text") {
            Some(t) => {
                let text = t.clone();
                match delay_from(args) {
                    Ok(delay_us) => Ok(InputAction::TypeText { text, delay_us }),
                    Err(e) => Err(e),
                }
            },
            None => Err(missing_arg_error("text")),
        }
    } else if str_eq(cmd, "send_key") {
        match args.get("combo") {
            Some(c) => {
                let combo = c.clone();
                match delay_from(args) {
                    Ok(delay_us) => Ok(InputAction::SendKey { combo, delay_us }),
                    Err(e) => Err(e),
                }
            },
            None => Err(missing_arg_error("combo")),
        }
    } else {
        Err(unknown_command_error(cmd))
    }
}

/// What a successful `type_text` reports: how many characters went in.
pub open spec fn type_ok_message(n: nat) -> Seq<char> {
    "typed "@ + dec_digits(n) + " characters"@
}

/// What a successful `send_key` reports: the combo it sent.
pub open spec fn send_ok_message(combo: Seq<char>) -> Seq<char> {
    "sent key combo: "@ + combo
}

/// The value a successful injection returns.
pub fn render_outcome(a: &InputAction) -> (r: PortValue)
    ensures
        a matches InputAction::TypeText { text, .. } ==> r.model() == ValueModel::Str(
            type_ok_message(text@.len()),
        ),
        a matches InputAction::SendKey { combo, .. } ==> r.model() == ValueModel::Str(
            send_ok_message(combo@),
        ),
{
    match a {
        InputAction::TypeText { text, .. } => {
            let n = text.as_str().unicode_len();
            let count = u64_to_string(n as u64);
            PortValue::Str(
                String::from_str("typed ").concat(count.as_str()).concat(" characters"),
            )
        },
        InputAction::SendKey { combo, .. } => {
            PortValue::Str(String::from_str("sent key combo: ").concat(combo.as_str()))
        },
    }
}

} // verus!
