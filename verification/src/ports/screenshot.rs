use vstd::prelude::*;
use vstd::string::*;

use crate::args::ArgMap;
use crate::codec::dec_digits;
use crate::port::{
    CommandDef, CommandModel, ParamDef, ParamModel, PortError, cmd_model, cmd_models_of,
    find_cmd_spec, unknown_command_error, unknown_command_message,
};
use crate::text::{str_eq, u64_to_string};
use crate::value::{PortValue, ValueModel};

verus! {

// ===================================================================
// The screenshot port: screen capture through an external capture
// tool. The schema, mode selection and output naming are here; the
// subprocess, the clock and the filesystem are the application's.
// ===================================================================

/// The screenshot schema: `take`, with an optional capture mode.
pub open spec fn spec_schema() -> Seq<CommandModel> {
    seq![
        CommandModel {
            name: "take"@,
            params: seq![ParamModel { name: "mode"@, required: false }],
        },
    ]
}

/// The validated backend request a call resolves to.
#[derive(Debug)]
pub enum ScreenshotAction {
    /// Capture with the given tool flag.
    Take { flag: String },
}

/// The capture-tool flag a mode selects: the active window, a region,
/// or the whole screen by default.
pub open spec fn spec_mode_flag(args: Map<Seq<char>, Seq<char>>) -> Seq<char> {
    if args.contains_key("mode"@) {
        if args["mode"@] == "activewindow"@ {
            "-a"@
        } else if args["mode"@] == "region"@ {
            "-r"@
        } else {
            "-f"@
        }
    } else {
        "-f"@
    }
}

/// The screenshot port, a stateless capability.
#[derive(Debug)]
pub struct ScreenshotPort;

impl ScreenshotPort {
    /// A screenshot port; construction has nothing to connect to and
    /// always succeeds.
    pub fn new() -> (r: Result<ScreenshotPort, PortError>)
        ensures
            r is Ok,
    {
        Ok(ScreenshotPort)
    }

    /// The screenshot port's name.
    pub fn name(&self) -> (r: &'static str)
        ensures
            r@ == "screenshot"@,
    {
        "screenshot"
    }

    /// The full schema, as command definitions.
    pub fn commands(&self) -> (r: Vec<CommandDef>)
        ensures
            cmd_models_of(r@) == spec_schema(),
            r@.len() > 0,
    {
        let mut params: Vec<ParamDef> = Vec::new();
        params.push(
            ParamDef {
                name: String::from_str("mode"),
                description: String::from_str("fullscreen, activewindow, or region"),
                required: false,
            },
        );
        let mut r: Vec<CommandDef> = Vec::new();
        r.push(
            CommandDef {
                name: String::from_str("take"),
                description: String::from_str("Take a screenshot and return the file path"),
                params,
            },
        );
        proof {
            assert(cmd_model(r@[0]).params =~= spec_schema()[0].params);
            assert(cmd_model(r@[0]) =~~= spec_schema()[0]);
            assert(cmd_models_of(r@) =~~= spec_schema());
        }
        r
    }
}

/// How a command name resolves against this schema.
proof fn lemma_schema_lookup(cmd: Seq<char>)
    ensures
        cmd == "take"@ ==> find_cmd_spec(spec_schema(), cmd) == Some(spec_schema()[0]),
        cmd != "take"@ ==> find_cmd_spec(spec_schema(), cmd) is None,
{
    let s = spec_schema();
    assert(s.drop_first() =~= Seq::<CommandModel>::empty());
    assert(find_cmd_spec(Seq::<CommandModel>::empty(), cmd) is None);
}

/// Resolves a call into a validated capture request.
pub fn plan(cmd: &str, args: &ArgMap) -> (r: Result<ScreenshotAction, PortError>)
    ensures
        find_cmd_spec(spec_schema(), cmd@) is None ==> (r matches Err(e) && e.code == -1
            && e.message@ == unknown_command_message(cmd@)),
        find_cmd_spec(spec_schema(), cmd@) is None <==> cmd@ != "take"@,
        cmd@ == "take"@ ==> (r matches Ok(a) && (a matches ScreenshotAction::Take { flag } && flag@
            == spec_mode_flag(args@))),
{
    proof {
        lemma_schema_lookup(cmd@);
    }
    if str_eq(cmd, "take") {
        let flag: String = match args.get("mode") {
            Some(m) => {
                if str_eq(m.as_str(), "activewindow") {
                    String::from_str("-a")
                } else if str_eq(m.as_str(), "region") {
                    String::from_str("-r")
                } else {
                    String::from_str("-f")
                }
            },
            None => String::from_str("-f"),
        };
        Ok(ScreenshotAction::Take { flag })
    } else {
        Err(unknown_command_error(cmd))
    }
}

/// The per-user directory captures are written into.
pub open spec fn spec_output_dir(uid: nat) -> Seq<char> {
    "/run/user/"@ + dec_digits(uid) + "/appmesh"@
}

/// The file a capture is written to, named by its timestamp.
pub open spec fn spec_output_path(uid: nat, ts_millis: nat) -> Seq<char> {
    spec_output_dir(uid) + "/screenshot_"@ + dec_digits(ts_millis) + ".png"@
}

/// The per-user directory captures are written into.
pub fn output_dir(uid: u32) -> (r: String)
    ensures
        r@ == spec_output_dir(uid as nat),
{
    let num = u64_to_string(uid as u64);
    String::from_str("/run/user/").concat(num.as_str()).concat("/appmesh")
}

/// The file a capture is written to.
pub fn output_path(uid: u32, ts_millis: u64) -> (r: String)
    ensures
        r@ == spec_output_path(uid as nat, ts_millis as nat),
{
    let dir = output_dir(uid);
    let ts = u64_to_string(ts_millis);
    dir.concat("/screenshot_").concat(ts.as_str()).concat(".png")
}

/// What a capture reports: the output path, hedged where the file has
/// not appeared yet.
pub open spec fn pending_message(path: Seq<char>) -> Seq<char> {
    "screenshot may be at: "@ + path
}

/// The value a capture returns: the path where the file exists, and a
/// hedged message naming the path where it does not.
pub fn render_outcome(path: &str, file_exists: bool) -> (r: PortValue)
    ensures
        file_exists ==> r.model() == ValueModel::Str(path@),
        !file_exists ==> r.model() == ValueModel::Str(pending_message(path@)),
{
    if file_exists {
        PortValue::Str(String::from_str(path))
    } else {
        PortValue::Str(String::from_str("screenshot may be at: ").concat(path))
    }
}

} // verus!
