use vstd::prelude::*;
use vstd::string::*;

use crate::args::ArgMap;
use crate::codec::{dec_digits, enc, encode_value};
use crate::port::{
    CommandDef, CommandModel, ParamDef, ParamModel, PortError, cmd_model, cmd_models_of,
    find_cmd_spec, missing_arg_error, missing_arg_message, unknown_command_error,
    unknown_command_message,
};
use crate::text::{str_eq, u64_to_string};
use crate::value::{PortValue, ValueModel};

verus! {

// ===================================================================
// The window-management port: listing and activating windows through
// the compositor's scripting interface. The schema, id classification
// and the script text are here; running scripts and subprocesses is
// the application's.
// ===================================================================

/// The window schema: `list` takes nothing, `activate` requires `id`.
pub open spec fn spec_schema() -> Seq<CommandModel> {
    seq![
        CommandModel { name: "list"@, params: Seq::empty() },
        CommandModel {
            name: "activate"@,
            params: seq![ParamModel { name: "id"@, required: true }],
        },
    ]
}

/// The validated backend request a call resolves to.
#[derive(Debug)]
pub enum WindowsAction {
    /// List the open windows.
    ListWindows,
    /// Focus the window with the given id.
    Activate { id: String },
}

/// The window port's name.
pub fn port_name() -> (r: &'static str)
    ensures
        r@ == "windows"@,
{
    "windows"
}

/// The full schema, as command definitions.
pub fn commands() -> (r: Vec<CommandDef>)
    ensures
        cmd_models_of(r@) == spec_schema(),
        r@.len() > 0,
{
    let list_params: Vec<ParamDef> = Vec::new();
    let mut act_params: Vec<ParamDef> = Vec::new();
    act_params.push(
        ParamDef {
            name: String::from_str("id"),
            description: String::from_str("Window ID (UUID or numeric)"),
            required: true,
        },
    );
    let mut r: Vec<CommandDef> = Vec::new();
    r.push(
        CommandDef {
            name: String::from_str("list"),
            description: String::from_str("List all open windows with IDs, titles, and apps"),
            params: list_params,
        },
    );
    r.push(
        CommandDef {
            name: String::from_str("activate"),
            description: String::from_str("Activate (focus) a window by its ID"),
            params: act_params,
        },
    );
    proof {
        assert(cmd_model(r@[0]).params =~= spec_schema()[0].params);
        assert(cmd_model(r@[1]).params =~= spec_schema()[1].params);
        assert(cmd_model(r@[0]) =~~= spec_schema()[0]);
        assert(cmd_model(r@[1]) =~~= spec_schema()[1]);
        assert(cmd_models_of(r@) =~~= spec_schema());
    }
    r
}

/// How a command name resolves against this schema.
proof fn lemma_schema_lookup(cmd: Seq<char>)
    ensures
        cmd == "list"@ ==> find_cmd_spec(spec_schema(), cmd) == Some(spec_schema()[0]),
        cmd == "activate"@ ==> find_cmd_spec(spec_schema(), cmd) == Some(spec_schema()[1]),
        cmd != "list"@ && cmd != "activate"@ ==> find_cmd_spec(spec_schema(), cmd) is None,
{
    reveal_strlit("list");
    reveal_strlit("activate");
    assert("list"@.len() == 4 && "activate"@.len() == 8);
    let s = spec_schema();
    assert(s.drop_first() =~= seq![s[1]]);
    assert(seq![s[1]].drop_first() =~= Seq::<CommandModel>::empty());
    assert(find_cmd_spec(Seq::<CommandModel>::empty(), cmd) is None);
    if cmd != "activate"@ {
        assert(find_cmd_spec(seq![s[1]], cmd) is None);
    }
}

/// Resolves a call into a validated backend request.
pub fn plan(cmd: &str, args: &ArgMap) -> (r: Result<WindowsAction, PortError>)
    ensures
        find_cmd_spec(spec_schema(), cmd@) is None ==> (r matches Err(e) && e.code == -1
            && e.message@ == unknown_command_message(cmd@)),
        find_cmd_spec(spec_schema(), cmd@) is None <==> (cmd@ != "list"@ && cmd@ != "activate"@),
        cmd@ == "list"@ ==> (r matches Ok(a) && a matches WindowsAction::ListWindows),
        (cmd@ == "activate"@ && args@.contains_key("id"@)) ==> (r matches Ok(a) && (a matches
        WindowsAction::Activate { id } && id@ == args@["id"@])),
        (cmd@ == "activate"@ && !args@.contains_key("id"@)) ==> (r matches Err(e) && e.code == -1
            && e.message@ == missing_arg_message("id"@)),
{
    proof {
        lemma_schema_lookup(cmd@);
        reveal_strlit("list");
        reveal_strlit("activate");
        assert("list"@.len() == 4 && "activate"@.len() == 8);
    }
    if str_eq(cmd, "list") {
        Ok(WindowsAction::ListWindows)
    } else if str_eq(cmd, "activate") {
        match args.get("id") {
            Some(id) => Ok(WindowsAction::Activate { id: id.clone() }),
            None => Err(missing_arg_error("id")),
        }
    } else {
        Err(unknown_command_error(cmd))
    }
}

/// Whether an id looks numeric: decimal digits with an optional hex
/// marker. Such ids go to the window-manager control tool first; others
/// go straight to the compositor script.
pub open spec fn spec_numeric_id(s: Seq<char>) -> bool {
    forall|i: int|
        0 <= i < s.len() ==> (crate::codec::is_digit(#[trigger] s[i]) || s[i] == 'x' || s[i]
            == 'X')
}

/// Classifies a window id as numeric-style or not.
pub fn is_numeric_id(s: &str) -> (r: bool)
    ensures
        r == spec_numeric_id(s@),
{
    let n = s.unicode_len();
    let mut j: usize = 0;
    while j < n
        invariant
            j <= n,
            n == s@.len(),
            forall|k: int|
                0 <= k < j ==> (crate::codec::is_digit(#[trigger] s@[k]) || s@[k] == 'x' || s@[k]
                    == 'X'),
        decreases n - j,
    {
        let c = s.get_char(j);
        let u = c as u32;
        if !((48 <= u && u <= 57) || c == 'x' || c == 'X') {
            return false;
        }
        j += 1;
    }
    true
}

/// The compositor script that activates a window by id. The id is
/// embedded as a quoted, escaped string literal.
pub open spec fn spec_activation_script(id: Seq<char>) -> Seq<char> {
    "workspace.windowList().find(w => w.internalId.toString() === "@ + enc(ValueModel::Str(id))
        + ")?.activate();"@
}

/// Builds the activation script for a window id.
pub fn activation_script(id: &str) -> (r: String)
    ensures
        r@ == spec_activation_script(id@),
{
    let quoted = encode_value(&PortValue::Str(String::from_str(id)));
    String::from_str("workspace.windowList().find(w => w.internalId.toString() === ").concat(
        quoted.as_str(),
    ).concat(")?.activate();")
}

/// The file a compositor script is staged in, named uniquely by process
/// and time so the compositor never serves a stale cache entry.
pub open spec fn spec_script_path(pid: nat, nanos: nat) -> Seq<char> {
    "/tmp/appmesh_kwin_"@ + dec_digits(pid) + "_"@ + dec_digits(nanos) + ".js"@
}

/// Builds the staging path for a compositor script.
pub fn script_path(pid: u32, nanos: u64) -> (r: String)
    ensures
        r@ == spec_script_path(pid as nat, nanos as nat),
{
    let p = u64_to_string(pid as u64);
    let n = u64_to_string(nanos);
    String::from_str("/tmp/appmesh_kwin_").concat(p.as_str()).concat("_").concat(
        n.as_str(),
    ).concat(".js")
}

/// What a successful `activate` reports.
pub open spec fn activated_message(id: Seq<char>) -> Seq<char> {
    "activated window: "@ + id
}

/// The value a successful call returns: `list` hands the listing
/// through; `activate` names the window it focused.
pub fn render_outcome(a: &WindowsAction, reply: String) -> (r: PortValue)
    ensures
        a matches WindowsAction::ListWindows ==> r.model() == ValueModel::Str(reply@),
        a matches WindowsAction::Activate { id } ==> r.model() == ValueModel::Str(
            activated_message(id@),
        ),
{
    match a {
        WindowsAction::ListWindows => PortValue::Str(reply),
        WindowsAction::Activate { id } => {
            PortValue::Str(String::from_str("activated window: ").concat(id.as_str()))
        },
    }
}

} // verus!
