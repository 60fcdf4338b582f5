use vstd::prelude::*;
use vstd::string::*;

use crate::port::PortError;
use crate::text::str_eq;

verus! {

/// The fixed, enumerable set of registrable port names, in the order
/// discovery tooling lists them.
pub open spec fn spec_port_names() -> Seq<Seq<char>> {
    seq!["clipboard"@, "input"@, "mail"@, "notify"@, "screenshot"@, "windows"@]
}

/// The backends this registry can construct, one per registered name.
#[derive(Clone, Copy, PartialEq, Eq, Structural, Debug)]
pub enum PortKind {
    Clipboard,
    Input,
    Mail,
    Notify,
    Screenshot,
    Windows,
}

/// The registered name of a backend kind.
pub open spec fn spec_kind_name(k: PortKind) -> Seq<char> {
    match k {
        PortKind::Clipboard => "clipboard"@,
        PortKind::Input => "input"@,
        PortKind::Mail => "mail"@,
        PortKind::Notify => "notify"@,
        PortKind::Screenshot => "screenshot"@,
        PortKind::Windows => "windows"@,
    }
}

/// The registered name of a backend kind.
pub fn kind_name(k: PortKind) -> (r: &'static str)
    ensures
        r@ == spec_kind_name(k),
{
    match k {
        PortKind::Clipboard => "clipboard",
        PortKind::Input => "input",
        PortKind::Mail => "mail",
        PortKind::Notify => "notify",
        PortKind::Screenshot => "screenshot",
        PortKind::Windows => "windows",
    }
}

/// The message rejecting an unregistered port name; it carries the
/// offending name.
pub open spec fn unknown_port_message(name: Seq<char>) -> Seq<char> {
    "unknown port '"@ + name + "'"@
}

/// The fixed set of registrable names, in order, whether or not each
/// backend is currently constructible.
pub fn port_names() -> (r: Vec<String>)
    ensures
        r@.len() == spec_port_names().len(),
        forall|i: int| 0 <= i < r@.len() ==> (#[trigger] r@[i])@ == spec_port_names()[i],
{
    let mut r: Vec<String> = Vec::new();
    r.push(String::from_str("clipboard"));
    r.push(String::from_str("input"));
    r.push(String::from_str("mail"));
    r.push(String::from_str("notify"));
    r.push(String::from_str("screenshot"));
    r.push(String::from_str("windows"));
    r
}

/// Looks a name up in the registry. A registered name resolves to its
/// backend kind; an unknown name is rejected with a message carrying
/// that name — never by aborting.
pub fn resolve_port(name: &str) -> (r: Result<PortKind, PortError>)
    ensures
        match r {
            Ok(k) => spec_kind_name(k) == name@ && spec_port_names().contains(name@),
            Err(e) => !spec_port_names().contains(name@) && e.code == -1 && e.message@
                == unknown_port_message(name@),
        },
{
    if str_eq(name, "clipboard") {
        proof {
            assert(spec_port_names()[0] == "clipboard"@);
        }
        Ok(PortKind::Clipboard)
    } else if str_eq(name, "input") {
        proof {
            assert(spec_port_names()[1] == "input"@);
        }
        Ok(PortKind::Input)
    } else if str_eq(name, "mail") {
        proof {
            assert(spec_port_names()[2] == "mail"@);
        }
        Ok(PortKind::Mail)
    } else if str_eq(name, "notify") {
        proof {
            assert(spec_port_names()[3] == "notify"@);
        }
        Ok(PortKind::Notify)
    } else if str_eq(name, "screenshot") {
        proof {
            assert(spec_port_names()[4] == "screenshot"@);
        }
        Ok(PortKind::Screenshot)
    } else if str_eq(name, "windows") {
        proof {
            assert(spec_port_names()[5] == "windows"@);
        }
        Ok(PortKind::Windows)
    } else {
        proof {
            assert forall|i: int| 0 <= i < spec_port_names().len() implies spec_port_names()[i]
                != name@ by {
                assert(spec_port_names()[0] == "clipboard"@);
                assert(spec_port_names()[1] == "input"@);
                assert(spec_port_names()[2] == "mail"@);
                assert(spec_port_names()[3] == "notify"@);
                assert(spec_port_names()[4] == "screenshot"@);
                assert(spec_port_names()[5] == "windows"@);
            }
        }
        Err(PortError::failure(String::from_str("unknown port '").concat(name).concat("'")))
    }
}

} // verus!
