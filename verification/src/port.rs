use vstd::prelude::*;
use vstd::string::*;

use crate::args::ArgMap;
use crate::codec::enc_int;
use crate::text::{i64_to_string, str_eq};
use crate::value::{PortValue, ValueModel};

verus! {

// ===================================================================
// Command schema: declarative metadata describing what a port can do.
// ===================================================================

/// Definition of a command parameter. Parameter order is significant: it
/// is the tie-break for positional argument fallback.
#[derive(Debug)]
pub struct ParamDef {
    pub name: String,
    pub description: String,
    pub required: bool,
}

/// Definition of a command exposed by a port.
#[derive(Debug)]
pub struct CommandDef {
    pub name: String,
    pub description: String,
    pub params: Vec<ParamDef>,
}

/// The part of a parameter definition that contracts speak of.
#[verifier::ext_equal]
pub struct ParamModel {
    pub name: Seq<char>,
    pub required: bool,
}

/// The part of a command definition that contracts speak of.
#[verifier::ext_equal]
pub struct CommandModel {
    pub name: Seq<char>,
    pub params: Seq<ParamModel>,
}

pub open spec fn param_model(p: ParamDef) -> ParamModel {
    ParamModel { name: p.name@, required: p.required }
}

pub open spec fn cmd_model(c: CommandDef) -> CommandModel {
    CommandModel {
        name: c.name@,
        params: Seq::new(c.params@.len(), |i: int| param_model(c.params@[i])),
    }
}

pub open spec fn cmd_models_of(s: Seq<CommandDef>) -> Seq<CommandModel> {
    Seq::new(s.len(), |i: int| cmd_model(s[i]))
}

/// The first command of that name, if any.
pub open spec fn find_cmd_spec(cmds: Seq<CommandModel>, name: Seq<char>) -> Option<CommandModel>
    decreases cmds,
{
    if cmds.len() == 0 {
        None
    } else if cmds[0].name == name {
        Some(cmds[0])
    } else {
        find_cmd_spec(cmds.drop_first(), name)
    }
}

/// The name of the first required parameter that the arguments do not
/// bind, if any.
pub open spec fn first_missing_spec(
    params: Seq<ParamModel>,
    args: Map<Seq<char>, Seq<char>>,
) -> Option<Seq<char>>
    decreases params,
{
    if params.len() == 0 {
        None
    } else if params[0].required && !args.contains_key(params[0].name) {
        Some(params[0].name)
    } else {
        first_missing_spec(params.drop_first(), args)
    }
}

// ===================================================================
// Errors.
// ===================================================================

/// Error returned by a port command: a caller-facing code and a
/// human-readable message. Every port-level failure carries the single
/// generic code `-1`, kept for wire compatibility; the message carries
/// the context.
#[derive(Debug, Clone)]
pub struct PortError {
    pub code: i32,
    pub message: String,
}

/// Result type for port commands.
pub type PortResult = Result<PortValue, PortError>;

pub open spec fn unknown_command_message(name: Seq<char>) -> Seq<char> {
    "unknown command: "@ + name
}

pub open spec fn missing_arg_message(name: Seq<char>) -> Seq<char> {
    "missing '"@ + name + "' argument"@
}

pub open spec fn invalid_arg_message(name: Seq<char>) -> Seq<char> {
    "invalid '"@ + name + "' argument"@
}

impl PortError {
    /// The generic failure code shared by all port-level failures.
    pub fn failure(message: String) -> (r: PortError)
        ensures
            r.code == -1,
            r.message@ == message@,
    {
        PortError { code: -1, message }
    }

    /// What `display_string` renders.
    pub open spec fn display_spec(&self) -> Seq<char> {
        "port error "@ + enc_int(self.code as int) + ": "@ + self.message@
    }

    /// A rendering of the error for human eyes.
    pub fn display_string(&self) -> (r: String)
        ensures
            r@ == self.display_spec(),
    {
        let num = i64_to_string(self.code as i64);
        String::from_str("port error ").concat(num.as_str()).concat(": ").concat(
            self.message.as_str(),
        )
    }
}

/// The error for a command name no port command carries.
pub fn unknown_command_error(name: &str) -> (r: PortError)
    ensures
        r.code == -1,
        r.message@ == unknown_command_message(name@),
{
    PortError::failure(String::from_str("unknown command: ").concat(name))
}

/// The error for an absent required parameter, naming that parameter.
pub fn missing_arg_error(name: &str) -> (r: PortError)
    ensures
        r.code == -1,
        r.message@ == missing_arg_message(name@),
{
    PortError::failure(String::from_str("missing '").concat(name).concat("' argument"))
}

/// The error for an argument that is present but malformed, naming that
/// parameter.
pub fn invalid_arg_error(name: &str) -> (r: PortError)
    ensures
        r.code == -1,
        r.message@ == invalid_arg_message(name@),
{
    PortError::failure(String::from_str("invalid '").concat(name).concat("' argument"))
}

// ===================================================================
// Schema lookup and argument validation.
// ===================================================================

/// Finds the first command of the given name.
pub fn find_command(cmds: &Vec<CommandDef>, name: &str) -> (r: Option<usize>)
    ensures
        match r {
            Some(i) => i < cmds@.len() && find_cmd_spec(cmd_models_of(cmds@), name@) == Some(
                cmd_model(cmds@[i as int]),
            ),
            None => find_cmd_spec(cmd_models_of(cmds@), name@) is None,
        },
{
    let ghost m = cmd_models_of(cmds@);
    let n = cmds.len();
    proof {
        assert(m.skip(0) =~= m);
    }
    let mut j: usize = 0;
    while j < n
        invariant
            j <= n,
            n == cmds@.len(),
            m == cmd_models_of(cmds@),
            m.len() == n,
            find_cmd_spec(m, name@) == find_cmd_spec(m.skip(j as int), name@),
        decreases n - j,
    {
        proof {
            assert(m.skip(j as int)[0] == m[j as int]);
            assert(m.skip(j as int).drop_first() =~= m.skip(j as int + 1));
        }
        if str_eq(cmds[j].name.as_str(), name) {
            return Some(j);
        }
        j += 1;
    }
    proof {
        assert(m.skip(n as int).len() == 0);
    }
    None
}

/// Checks that every required parameter of `c` is bound in `args`; the
/// error names the first one that is not.
pub fn check_required(c: &CommandDef, args: &ArgMap) -> (r: Option<PortError>)
    ensures
        match r {
            Some(e) => e.code == -1 && first_missing_spec(cmd_model(*c).params, args@) is Some
                && e.message@ == missing_arg_message(
                first_missing_spec(cmd_model(*c).params, args@)->0,
            ),
            None => first_missing_spec(cmd_model(*c).params, args@) is None,
        },
{
    let ghost ps = cmd_model(*c).params;
    let n = c.params.len();
    proof {
        assert(ps.skip(0) =~= ps);
    }
    let mut j: usize = 0;
    while j < n
        invariant
            j <= n,
            n == c.params@.len(),
            ps == cmd_model(*c).params,
            ps.len() == n,
            first_missing_spec(ps, args@) == first_missing_spec(ps.skip(j as int), args@),
        decreases n - j,
    {
        proof {
            assert(ps.skip(j as int)[0] == ps[j as int]);
            assert(ps.skip(j as int).drop_first() =~= ps.skip(j as int + 1));
        }
        let p = &c.params[j];
        if p.required && !args.contains(p.name.as_str()) {
            return Some(missing_arg_error(p.name.as_str()));
        }
        j += 1;
    }
    proof {
        assert(ps.skip(n as int).len() == 0);
    }
    None
}


/// Resolves one bare argument token positionally: it binds to the first
/// declared parameter of the target command, parameter declaration order
/// being the tie-break. Where the command is unknown or declares no
/// parameters the token is silently dropped — the fallback is
/// deliberately lossy, and at most one bare token is usable per call.
pub fn resolve_bare_arg(cmds: &Vec<CommandDef>, cmd: &str, token: String, args: &mut ArgMap)
    ensures
        match find_cmd_spec(cmd_models_of(cmds@), cmd@) {
            Some(c) => if c.params.len() > 0 {
                final(args)@ == old(args)@.insert(c.params[0].name, token@)
            } else {
                final(args)@ == old(args)@
            },
            None => final(args)@ == old(args)@,
        },
{
    match find_command(cmds, cmd) {
        Some(i) => {
            if cmds[i].params.len() > 0 {
                let pname = String::from_str(cmds[i].params[0].name.as_str());
                args.insert(pname, token);
            }
        },
        None => {},
    }
}

// ===================================================================
// The port trait: a polymorphic capability with a self-describing
// schema and a generic execute operation.
// ===================================================================

/// A scriptable capability. A port reports a stable name, a fixed
/// non-empty command schema, and executes named commands against
/// string-keyed arguments. Unknown command names and absent required
/// parameters are rejected with errors naming the offender; what a
/// well-formed call returns is up to the backend behind the port.
pub trait AppMeshPort {
    /// The port's name.
    spec fn spec_name(&self) -> Seq<char>;

    /// The port's schema.
    spec fn spec_commands(&self) -> Seq<CommandModel>;

    /// Stable, lowercase, unique identifier.
    fn name(&self) -> (r: &str)
        ensures
            r@ == self.spec_name(),
    ;

    /// The full schema; never empty, never changing after construction.
    fn commands(&self) -> (r: Vec<CommandDef>)
        ensures
            cmd_models_of(r@) == self.spec_commands(),
            r@.len() > 0,
    ;

    /// Executes a command. Calls are serialized by exclusive access: one
    /// call at a time per port instance, completed in issue order.
    fn execute(&mut self, cmd: &str, args: &ArgMap) -> (r: PortResult)
        ensures
            final(self).spec_name() == old(self).spec_name(),
            final(self).spec_commands() == old(self).spec_commands(),
            find_cmd_spec(old(self).spec_commands(), cmd@) is None ==> (r matches Err(e)
                && e.code == -1 && e.message@ == unknown_command_message(cmd@)),
            find_cmd_spec(old(self).spec_commands(), cmd@) matches Some(c) ==> (
            first_missing_spec(c.params, args@) matches Some(p) ==> (r matches Err(e) && e.code
                == -1 && e.message@ == missing_arg_message(p))),
    ;
}

// ===================================================================
// An in-memory port: a fully verified implementation of the trait,
// answering each command with a fixed reply and recording arrival
// order. It backs tests and needs no backend at all.
// ===================================================================

/// The reply configured for a command, or null where none is.
pub open spec fn reply_spec(replies: Seq<(String, PortValue)>, cmd: Seq<char>) -> ValueModel
    decreases replies,
{
    if replies.len() == 0 {
        ValueModel::Null
    } else if replies[0].0@ == cmd {
        replies[0].1.model()
    } else {
        reply_spec(replies.drop_first(), cmd)
    }
}

/// A port whose backend is memory: a fixed schema, a fixed reply per
/// command, and a log of the commands that were executed, in order. The
/// first command is held apart from the rest, so the schema is non-empty
/// by construction.
pub struct FixedPort {
    name: String,
    first: CommandDef,
    rest: Vec<CommandDef>,
    replies: Vec<(String, PortValue)>,
    log: Vec<String>,
}

impl FixedPort {
    /// The replies this port was built with.
    pub closed spec fn spec_replies(&self) -> Seq<(String, PortValue)> {
        self.replies@
    }

    /// The commands executed so far, in arrival order.
    pub closed spec fn spec_log(&self) -> Seq<String> {
        self.log@
    }

    /// A port over the given schema (`first`, then `rest`) and replies.
    pub fn new(
        name: String,
        first: CommandDef,
        rest: Vec<CommandDef>,
        replies: Vec<(String, PortValue)>,
    ) -> (r: FixedPort)
        ensures
            r.spec_name() == name@,
            r.spec_commands() == cmd_models_of(seq![first] + rest@),
            r.spec_replies() == replies@,
            r.spec_log() == Seq::<String>::empty(),
    {
        let log: Vec<String> = Vec::new();
        FixedPort { name, first, rest, replies, log }
    }

    /// The schema as one vector: the first command, then the rest.
    fn schema_vec(&self) -> (r: Vec<CommandDef>)
        ensures
            cmd_models_of(r@) == self.spec_commands(),
            r@.len() > 0,
    {
        let n = self.rest.len();
        let mut out: Vec<CommandDef> = Vec::new();
        out.push(dup_command(&self.first));
        let mut j: usize = 0;
        while j < n
            invariant
                j <= n,
                n == self.rest@.len(),
                out@.len() == j + 1,
                cmd_model(out@[0]) == cmd_model(self.first),
                forall|k: int| 0 <= k < j ==> cmd_model(#[trigger] out@[k + 1]) == cmd_model(
                    self.rest@[k],
                ),
            decreases n - j,
        {
            out.push(dup_command(&self.rest[j]));
            j += 1;
        }
        proof {
            let whole = seq![self.first] + self.rest@;
            assert(whole.len() == out@.len());
            assert forall|k: int| 0 <= k < out@.len() implies cmd_model(out@[k]) == cmd_model(
                whole[k],
            ) by {
                if k == 0 {
                } else {
                    assert(whole[k] == self.rest@[k - 1]);
                    assert(cmd_model(out@[(k - 1) + 1]) == cmd_model(self.rest@[k - 1]));
                }
            }
            assert(cmd_models_of(out@) =~= cmd_models_of(whole));
        }
        out
    }

    /// How many commands have been executed against this port.
    pub fn executed_count(&self) -> (r: usize)
        ensures
            r == self.spec_log().len(),
    {
        self.log.len()
    }

    /// The name of the `i`-th executed command.
    pub fn executed_at(&self, i: usize) -> (r: &String)
        requires
            i < self.spec_log().len(),
        ensures
            r == self.spec_log()[i as int],
    {
        &self.log[i]
    }
}

impl AppMeshPort for FixedPort {
    closed spec fn spec_name(&self) -> Seq<char> {
        self.name@
    }

    closed spec fn spec_commands(&self) -> Seq<CommandModel> {
        cmd_models_of(seq![self.first] + self.rest@)
    }

    fn name(&self) -> (r: &str) {
        self.name.as_str()
    }

    fn commands(&self) -> (r: Vec<CommandDef>) {
        self.schema_vec()
    }

    fn execute(&mut self, cmd: &str, args: &ArgMap) -> (r: PortResult)
        ensures
            find_cmd_spec(old(self).spec_commands(), cmd@) matches Some(c) ==> (
            first_missing_spec(c.params, args@) is None ==> (r matches Ok(v) && v.model()
                == reply_spec(old(self).spec_replies(), cmd@) && final(self).spec_log().len()
                == old(self).spec_log().len() + 1 && final(self).spec_log().last()@ == cmd@
                && final(self).spec_log().take(old(self).spec_log().len() as int) == old(
                self,
            ).spec_log())),
            r is Err ==> final(self).spec_log() == old(self).spec_log(),
            final(self).spec_replies() == old(self).spec_replies(),
    {
        let cmds = self.schema_vec();
        let found = find_command(&cmds, cmd);
        match found {
            None => Err(unknown_command_error(cmd)),
            Some(i) => {
                let missing = check_required(&cmds[i], args);
                match missing {
                    Some(e) => Err(e),
                    None => {
                        let ghost oldlog = self.log@;
                        self.log.push(cmd.to_owned());
                        proof {
                            assert(self.log@.take(oldlog.len() as int) =~= oldlog);
                        }
                        let ghost rs = self.replies@;
                        proof {
                            assert(rs.skip(0) =~= rs);
                        }
                        let n = self.replies.len();
                        let mut k: usize = 0;
                        while k < n
                            invariant
                                k <= n,
                                n == self.replies@.len(),
                                rs == self.replies@,
                                rs == old(self).replies@,
                                self.name == old(self).name,
                                self.first == old(self).first,
                                self.rest@ == old(self).rest@,
                                self.log@.len() == old(self).log@.len() + 1,
                                self.log@.last()@ == cmd@,
                                self.log@.take(old(self).log@.len() as int) == old(self).log@,
                                find_cmd_spec(old(self).spec_commands(), cmd@) matches Some(c)
                                    && first_missing_spec(c.params, args@) is None,
                                reply_spec(rs, cmd@) == reply_spec(rs.skip(k as int), cmd@),
                            decreases n - k,
                        {
                            proof {
                                assert(rs.skip(k as int)[0] == rs[k as int]);
                                assert(rs.skip(k as int).drop_first() =~= rs.skip(k as int + 1));
                            }
                            let e = &self.replies[k];
                            if str_eq(e.0.as_str(), cmd) {
                                return Ok(e.1.dup());
                            }
                            k += 1;
                        }
                        proof {
                            assert(rs.skip(n as int).len() == 0);
                        }
                        Ok(PortValue::Null)
                    },
                }
            },
        }
    }
}

/// A structural copy of a parameter definition.
pub fn dup_param(p: &ParamDef) -> (r: ParamDef)
    ensures
        param_model(r) == param_model(*p),
        r.description@ == p.description@,
{
    ParamDef {
        name: String::from_str(p.name.as_str()),
        description: String::from_str(p.description.as_str()),
        required: p.required,
    }
}

/// A structural copy of a command definition.
pub fn dup_command(c: &CommandDef) -> (r: CommandDef)
    ensures
        cmd_model(r) == cmd_model(*c),
        r.description@ == c.description@,
{
    let n = c.params.len();
    let mut params: Vec<ParamDef> = Vec::new();
    let mut j: usize = 0;
    while j < n
        invariant
            j <= n,
            n == c.params@.len(),
            params@.len() == j,
            forall|k: int| 0 <= k < j ==> param_model(#[trigger] params@[k]) == param_model(
                c.params@[k],
            ),
        decreases n - j,
    {
        params.push(dup_param(&c.params[j]));
        j += 1;
    }
    let r = CommandDef {
        name: String::from_str(c.name.as_str()),
        description: String::from_str(c.description.as_str()),
        params,
    };
    proof {
        assert(cmd_model(r).params =~= cmd_model(*c).params);
        assert(cmd_model(r) =~= cmd_model(*c));
    }
    r
}

/// A structural copy of a whole schema.
pub fn dup_commands(cmds: &Vec<CommandDef>) -> (r: Vec<CommandDef>)
    ensures
        cmd_models_of(r@) == cmd_models_of(cmds@),
        r@.len() == cmds@.len(),
{
    let n = cmds.len();
    let mut out: Vec<CommandDef> = Vec::new();
    let mut j: usize = 0;
    while j < n
        invariant
            j <= n,
            n == cmds@.len(),
            out@.len() == j,
            forall|k: int| 0 <= k < j ==> cmd_model(#[trigger] out@[k]) == cmd_model(cmds@[k]),
        decreases n - j,
    {
        out.push(dup_command(&cmds[j]));
        j += 1;
    }
    proof {
        assert(cmd_models_of(out@) =~= cmd_models_of(cmds@));
    }
    out
}

} // verus!
